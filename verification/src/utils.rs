//! Verified utility logic around the installer: validation of a chosen
//! destination directory, recognition of stale script files that are
//! removed before an installation, and the formatter of alert texts.

use vstd::prelude::*;

use crate::strutil::{spec_ends_with, str_ends_with, str_eq};

verus! {

/// What a directory listing hands the validator about one entry: its
/// file name and whether it is a directory.
#[derive(Debug)]
pub struct DirEntryInfo {
    pub name: String,
    pub is_dir: bool,
}

/// Whether one listing entry is one of the markers of a game directory:
/// three well-known subdirectories and two well-known launcher files.
pub open spec fn is_ddlc_marker(name: Seq<char>, is_dir: bool) -> bool {
    if is_dir {
        name == "characters"@ || name == "game"@ || name == "renpy"@
    } else {
        name == "DDLC.py"@ || name == "DDLC.sh"@
    }
}

/// How many entries of the listing are markers.
pub open spec fn marker_count(entries: Seq<DirEntryInfo>) -> int
    decreases entries.len(),
{
    if entries.len() == 0 {
        0
    } else {
        marker_count(entries.drop_last()) + (if is_ddlc_marker(
            entries.last().name@,
            entries.last().is_dir,
        ) {
            1int
        } else {
            0int
        })
    }
}

/// A prefix of the listing never counts more markers than the whole.
pub proof fn lemma_marker_count_extend(entries: Seq<DirEntryInfo>, n: int)
    requires
        0 <= n <= entries.len(),
    ensures
        0 <= marker_count(entries.subrange(0, n)),
        marker_count(entries.subrange(0, n)) <= marker_count(entries),
        n < entries.len() ==> marker_count(entries.subrange(0, n + 1)) == marker_count(
            entries.subrange(0, n),
        ) + (if is_ddlc_marker(entries[n].name@, entries[n].is_dir) {
            1int
        } else {
            0int
        }),
    decreases entries.len(),
{
    if n == entries.len() {
        assert(entries.subrange(0, n) =~= entries);
        if entries.len() > 0 {
            lemma_marker_count_extend(entries.drop_last(), n - 1);
            assert(entries.drop_last().subrange(0, n - 1) =~= entries.drop_last());
        }
    } else {
        let shorter = entries.drop_last();
        assert(shorter =~= entries.subrange(0, entries.len() - 1));
        assert(entries.subrange(0, n) =~= shorter.subrange(0, n));
        if n == entries.len() - 1 {
            lemma_marker_count_extend(shorter, n);
            assert(entries.subrange(0, n + 1) =~= entries);
            assert(entries[n] == entries.last());
        } else {
            lemma_marker_count_extend(shorter, n);
            assert(entries.subrange(0, n + 1) =~= shorter.subrange(0, n + 1));
            assert(shorter[n] == entries[n]);
        }
    }
}

/// Whether a directory listing looks like a valid game directory: at
/// least five of its entries are markers. With the unique names of a
/// real directory listing, that means all three marker subdirectories
/// and both launcher files are present.
pub fn is_valid_ddlc_listing(entries: &Vec<DirEntryInfo>) -> (r: bool)
    ensures
        r == (marker_count(entries@) >= 5),
{
    let n = entries.len();
    let mut count: usize = 0;
    let mut i: usize = 0;
    proof {
        assert(entries@.subrange(0, 0) =~= Seq::<DirEntryInfo>::empty());
    }
    while i < n
        invariant
            i <= n,
            n == entries@.len(),
            count <= i,
            count == marker_count(entries@.subrange(0, i as int)),
        decreases n - i,
    {
        let e = &entries[i];
        let hit: bool = if e.is_dir {
            str_eq(e.name.as_str(), "characters") || str_eq(e.name.as_str(), "game") || str_eq(
                e.name.as_str(),
                "renpy",
            )
        } else {
            str_eq(e.name.as_str(), "DDLC.py") || str_eq(e.name.as_str(), "DDLC.sh")
        };
        proof {
            lemma_marker_count_extend(entries@, i as int);
        }
        if hit {
            count += 1;
            if count >= 5 {
                proof {
                    lemma_marker_count_extend(entries@, i as int + 1);
                }
                return true;
            }
        }
        i += 1;
    }
    proof {
        assert(entries@.subrange(0, n as int) =~= entries@);
    }
    count >= 5
}

/// Whether `name` names a stale script file: one with a script or
/// compiled-script extension after a non-empty stem. Such files are
/// removed from the destination, best effort, before an installation.
pub open spec fn spec_is_stale_script(name: Seq<char>) -> bool {
    ||| (spec_ends_with(name, ".rpy"@) && name.len() > ".rpy"@.len())
    ||| (spec_ends_with(name, ".rpyc"@) && name.len() > ".rpyc"@.len())
}

/// Checks whether `name` names a stale script file.
pub fn is_stale_script_name(name: &str) -> (r: bool)
    ensures
        r == spec_is_stale_script(name@),
{
    proof {
        reveal_strlit(".rpy");
        reveal_strlit(".rpyc");
    }
    let m: usize = name.unicode_len();
    (str_ends_with(name, ".rpy") && m > 4) || (str_ends_with(name, ".rpyc") && m > 5)
}

/// The position of the first colon-space separator of `s` at or after
/// `i`, or the length of `s` when there is none.
pub open spec fn first_sep_from(s: Seq<char>, i: int) -> int
    decreases s.len() - i,
{
    if i < 0 || i + 2 > s.len() {
        s.len() as int
    } else if s[i] == ':' && s[i + 1] == ' ' {
        i
    } else {
        first_sep_from(s, i + 1)
    }
}

/// The separator position never lies before `i` nor past the end.
pub proof fn lemma_first_sep_bounds(s: Seq<char>, i: int)
    requires
        0 <= i <= s.len(),
    ensures
        i <= first_sep_from(s, i) <= s.len(),
        first_sep_from(s, i) < s.len() ==> first_sep_from(s, i) + 2 <= s.len(),
    decreases s.len() - i,
{
    if !(i + 2 > s.len()) && !(s[i] == ':' && s[i + 1] == ' ') {
        lemma_first_sep_bounds(s, i + 1);
    }
}

/// The parts of an alert text from position `pos` on: the text split at
/// every colon-space separator, leftmost first.
pub open spec fn alert_parts_from(s: Seq<char>, pos: int) -> Seq<Seq<char>>
    decreases s.len() - pos,
{
    let p = first_sep_from(s, pos);
    if 0 <= pos <= p && p + 2 <= s.len() {
        seq![s.subrange(pos, p)] + alert_parts_from(s, p + 2)
    } else {
        seq![s.subrange(pos, s.len() as int)]
    }
}

/// `level` levels of four-space indentation.
pub open spec fn spec_indent(level: int) -> Seq<char>
    decreases level,
{
    if level <= 0 {
        Seq::empty()
    } else {
        spec_indent(level - 1) + seq![' ', ' ', ' ', ' ']
    }
}

/// The formatted alert text: each part on a line of its own, every line
/// followed by one deeper level of indentation.
pub open spec fn alert_join(parts: Seq<Seq<char>>, level: int) -> Seq<char>
    decreases parts.len(),
{
    if parts.len() == 0 {
        Seq::empty()
    } else {
        parts[0] + seq!['\n'] + spec_indent(level) + alert_join(parts.drop_first(), level + 1)
    }
}

/// What the alert formatter produces for `s`.
pub open spec fn format_alert(s: Seq<char>) -> Seq<char> {
    alert_join(alert_parts_from(s, 0), 1)
}

/// Formats a message so that each colon-separated clause stands on a
/// line of its own, indented one level deeper than the one before.
pub fn __format_alert_msg(msg: &str) -> (r: String)
    ensures
        r@ == format_alert(msg@),
{
    proof {
        reveal_strlit("\n");
        reveal_strlit("    ");
    }
    let m: usize = msg.unicode_len();
    let mut rv = String::new();
    let mut pos: usize = 0;
    let mut n: usize = 1;
    proof {
        assert(rv@ + alert_join(alert_parts_from(msg@, 0), 1) =~= alert_join(
            alert_parts_from(msg@, 0),
            1,
        ));
    }
    loop
        invariant
            pos <= m,
            m == msg@.len(),
            1 <= n,
            2 * (n - 1) <= pos,
            "\n"@ =~= seq!['\n'],
            "    "@ =~= seq![' ', ' ', ' ', ' '],
            format_alert(msg@) == rv@ + alert_join(alert_parts_from(msg@, pos as int), n as int),
        decreases m - pos,
    {
        // Find the next separator at or after `pos`.
        let mut j: usize = pos;
        let mut found: bool = false;
        while !found && j < m && j + 1 < m
            invariant
                pos <= j <= m,
                m == msg@.len(),
                first_sep_from(msg@, pos as int) == (if found {
                    j as int
                } else {
                    first_sep_from(msg@, j as int)
                }),
                found ==> j + 2 <= m,
            decreases m - j, (if found { 0int } else { 1int }),
        {
            if msg.get_char(j) == ':' && msg.get_char(j + 1) == ' ' {
                found = true;
            } else {
                j += 1;
            }
        }
        proof {
            lemma_first_sep_bounds(msg@, pos as int);
        }
        let ghost parts = alert_parts_from(msg@, pos as int);
        let ghost rv0 = rv@;
        if found {
            proof {
                assert(parts == seq![msg@.subrange(pos as int, j as int)] + alert_parts_from(
                    msg@,
                    j as int + 2,
                ));
                assert(parts[0] == msg@.subrange(pos as int, j as int));
                assert(parts.drop_first() =~= alert_parts_from(msg@, j as int + 2));
            }
            let part = msg.substring_char(pos, j);
            rv.append(part);
            rv.append("\n");
            let mut k: usize = 0;
            let ghost base = rv@;
            while k < n
                invariant
                    k <= n,
                    "    "@ =~= seq![' ', ' ', ' ', ' '],
                    rv@ == base + spec_indent(k as int),
                decreases n - k,
            {
                rv.append("    ");
                proof {
                    assert(base + spec_indent(k as int) + "    "@ =~= base + spec_indent(
                        k as int + 1,
                    ));
                }
                k += 1;
            }
            proof {
                assert(rv@ =~= rv0 + (parts[0] + seq!['\n'] + spec_indent(n as int)));
                assert(rv@ + alert_join(parts.drop_first(), n as int + 1) =~= rv0 + alert_join(
                    parts,
                    n as int,
                ));
            }
            pos = j + 2;
            n = n + 1;
        } else {
            proof {
                assert(first_sep_from(msg@, pos as int) == m);
                assert(parts =~~= seq![msg@.subrange(pos as int, m as int)]);
                assert(parts[0] == msg@.subrange(pos as int, m as int));
                assert(parts.drop_first() =~= Seq::<Seq<char>>::empty());
                assert(alert_join(Seq::<Seq<char>>::empty(), n as int + 1) == Seq::<
                    char,
                >::empty());
            }
            let part = msg.substring_char(pos, m);
            rv.append(part);
            rv.append("\n");
            let mut k: usize = 0;
            let ghost base = rv@;
            while k < n
                invariant
                    k <= n,
                    "    "@ =~= seq![' ', ' ', ' ', ' '],
                    rv@ == base + spec_indent(k as int),
                decreases n - k,
            {
                rv.append("    ");
                proof {
                    assert(base + spec_indent(k as int) + "    "@ =~= base + spec_indent(
                        k as int + 1,
                    ));
                }
                k += 1;
            }
            proof {
                assert(rv@ =~= rv0 + (parts[0] + seq!['\n'] + spec_indent(n as int)));
                assert(rv0 + alert_join(parts, n as int) =~= rv@);
            }
            return rv;
        }
    }
}

} // verus!
