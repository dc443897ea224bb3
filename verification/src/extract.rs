//! The archive extractor's verified logic: entry-path safety, per-entry
//! extraction steps, per-entry progress, and cancellation checkpoints.
//!
//! The critical security invariant of extraction is that no archive entry
//! may write outside the destination directory. An entry's stored path is
//! resolved to a list of plain path components confined to the
//! destination; a stored path that is absolute or escapes through a
//! parent-directory segment is rejected, and nothing is written for it.

use vstd::prelude::*;

use crate::archive::{archive_entries, entries_of, entry_ok, parses_as_archive, zip_entry, zip_len, zip_open};
use crate::download::Progress;
use crate::errors::ExtractionError;

verus! {

/// Whether `c` separates path components in a stored entry path; both
/// separator conventions are honored.
pub open spec fn is_sep(c: char) -> bool {
    c == '/' || c == '\\'
}

/// The parent-directory component.
pub open spec fn dotdot() -> Seq<char> {
    seq!['.', '.']
}

/// The current-directory component.
pub open spec fn dot() -> Seq<char> {
    seq!['.']
}

/// The components of a stored entry path, split at every separator;
/// splitting never drops characters, so the empty name has one empty
/// component and a trailing separator produces a trailing empty
/// component.
pub open spec fn path_split(s: Seq<char>) -> Seq<Seq<char>>
    decreases s.len(),
{
    if s.len() == 0 {
        seq![Seq::<char>::empty()]
    } else {
        let rest = path_split(s.drop_last());
        if is_sep(s.last()) {
            rest.push(Seq::<char>::empty())
        } else {
            rest.update(rest.len() - 1, rest.last().push(s.last()))
        }
    }
}

/// A split always has at least one component.
pub proof fn lemma_path_split_nonempty(s: Seq<char>)
    ensures
        path_split(s).len() >= 1,
    decreases s.len(),
{
    if s.len() > 0 {
        lemma_path_split_nonempty(s.drop_last());
    }
}

/// All components of the scanned prefix but the last are final: they
/// appear unchanged, at the same position, in the split of the whole
/// name.
pub proof fn lemma_path_split_stable(s: Seq<char>, i: int)
    requires
        0 <= i <= s.len(),
    ensures
        path_split(s).len() >= path_split(s.subrange(0, i)).len(),
        forall|j: int| 0 <= j < path_split(s.subrange(0, i)).len() - 1
            ==> #[trigger] path_split(s)[j] == path_split(s.subrange(0, i))[j],
    decreases s.len() - i,
{
    if i == s.len() {
        assert(s.subrange(0, i) =~= s);
    } else {
        lemma_path_split_stable(s, i + 1);
        let prefix = s.subrange(0, i);
        let prefix1 = s.subrange(0, i + 1);
        assert(prefix1.drop_last() =~= prefix);
        assert(prefix1.last() == s[i]);
        lemma_path_split_nonempty(prefix);
        if is_sep(s[i]) {
            assert(path_split(prefix1) == path_split(prefix).push(Seq::<char>::empty()));
        } else {
            assert(path_split(prefix1) == path_split(prefix).update(
                path_split(prefix).len() - 1,
                path_split(prefix).last().push(s[i]),
            ));
        }
    }
}

/// A stored entry path can be safely confined to the destination when it
/// holds no NUL byte and no colon, is not absolute, and has no
/// parent-directory component. A colon is never a separator, so this is
/// exactly: no component carries a drive prefix, which would replace the
/// destination path rather than descend below it when joined on a system
/// with drive letters.
pub open spec fn is_safe_entry_name(s: Seq<char>) -> bool {
    &&& !s.contains('\0')
    &&& !s.contains(':')
    &&& !(s.len() > 0 && is_sep(s[0]))
    &&& forall|j: int| 0 <= j < path_split(s).len() ==> #[trigger] path_split(s)[j] != dotdot()
}

/// Whether a split component survives confinement: empty components and
/// current-directory components vanish.
pub open spec fn keep_component(c: Seq<char>) -> bool {
    c.len() > 0 && c != dot()
}

/// The components that survive confinement, in order.
pub open spec fn filter_components(cs: Seq<Seq<char>>) -> Seq<Seq<char>>
    decreases cs.len(),
{
    if cs.len() == 0 {
        Seq::empty()
    } else {
        let rest = filter_components(cs.drop_last());
        if keep_component(cs.last()) {
            rest.push(cs.last())
        } else {
            rest
        }
    }
}

/// The confined relative path of a safe stored entry path: its surviving
/// components below the destination directory.
pub open spec fn safe_components(s: Seq<char>) -> Seq<Seq<char>> {
    filter_components(path_split(s))
}

/// Closes one split component: rejects the parent-directory component and
/// appends the component to the confined path when it survives
/// confinement.
fn close_component(out: &mut Vec<String>, comp: &str) -> (ok: bool)
    ensures
        ok == (comp@ != dotdot()),
        ok ==> final(out).deep_view() == (if keep_component(comp@) {
            old(out).deep_view().push(comp@)
        } else {
            old(out).deep_view()
        }),
        !ok ==> *final(out) == *old(out),
{
    let n = comp.unicode_len();
    if n == 2 && comp.get_char(0) == '.' && comp.get_char(1) == '.' {
        proof {
            assert(comp@ =~= dotdot());
        }
        return false;
    }
    proof {
        if comp@ == dotdot() {
            assert(comp@.len() == 2 && comp@[0] == '.' && comp@[1] == '.');
        }
    }
    if n == 0 {
        return true;
    }
    if n == 1 && comp.get_char(0) == '.' {
        proof {
            assert(comp@ =~= dot());
        }
        return true;
    }
    proof {
        if comp@ == dot() {
            assert(comp@.len() == 1 && comp@[0] == '.');
        }
        assert(keep_component(comp@));
    }
    let owned = String::from_str(comp);
    out.push(owned);
    proof {
        assert(final(out).deep_view() =~= old(out).deep_view().push(comp@));
    }
    true
}

/// Resolves a stored entry path to a confined relative path below the
/// destination, or `None` when the path cannot be safely confined: when
/// it holds a NUL byte or a drive-prefix colon, is absolute, or steps
/// through a parent-directory component.
pub fn sanitize_entry_path(name: &str) -> (r: Option<Vec<String>>)
    ensures
        r is Some <==> is_safe_entry_name(name@),
        r matches Some(parts) ==> parts.deep_view() == safe_components(name@),
{
    let m: usize = name.unicode_len();
    if m > 0 {
        let c0 = name.get_char(0);
        if c0 == '/' || c0 == '\\' {
            return None;
        }
    }
    let mut out: Vec<String> = Vec::new();
    let mut start: usize = 0;
    let mut i: usize = 0;
    proof {
        assert(name@.subrange(0, 0) =~= Seq::<char>::empty());
    }
    while i < m
        invariant
            start <= i <= m,
            m == name@.len(),
            m > 0 ==> !is_sep(name@[0]),
            forall|k: int| 0 <= k < i ==> #[trigger] name@[k] != '\0' && name@[k] != ':',
            path_split(name@.subrange(0, i as int)).last() == name@.subrange(
                start as int,
                i as int,
            ),
            forall|j: int| 0 <= j < path_split(name@.subrange(0, i as int)).len() - 1
                ==> #[trigger] path_split(name@.subrange(0, i as int))[j] != dotdot(),
            out.deep_view() == filter_components(
                path_split(name@.subrange(0, i as int)).drop_last(),
            ),
        decreases m - i,
    {
        let c = name.get_char(i);
        if c == '\0' {
            proof {
                assert(name@.contains('\0')) by {
                    assert(name@[i as int] == '\0');
                }
            }
            return None;
        }
        if c == ':' {
            proof {
                assert(name@.contains(':')) by {
                    assert(name@[i as int] == ':');
                }
            }
            return None;
        }
        let ghost prefix = name@.subrange(0, i as int);
        let ghost prefix1 = name@.subrange(0, i as int + 1);
        proof {
            assert(prefix1.drop_last() =~= prefix);
            assert(prefix1.last() == name@[i as int]);
            lemma_path_split_nonempty(prefix);
        }
        if c == '/' || c == '\\' {
            let comp = name.substring_char(start, i);
            let ok = close_component(&mut out, comp);
            proof {
                assert(path_split(prefix1) == path_split(prefix).push(Seq::<char>::empty()));
                assert(path_split(prefix1).drop_last() =~= path_split(prefix));
            }
            if !ok {
                // The completed component is a parent-directory step; it
                // stays a component of the whole stored path.
                proof {
                    lemma_path_split_stable(name@, i as int + 1);
                    let js = path_split(prefix1).len() - 2;
                    assert(path_split(prefix1)[js] == path_split(prefix).last());
                    assert(path_split(name@)[js] == dotdot());
                }
                return None;
            }
            proof {
                assert(filter_components(path_split(prefix)) == (
                    if keep_component(path_split(prefix).last()) {
                        filter_components(path_split(prefix).drop_last()).push(
                            path_split(prefix).last(),
                        )
                    } else {
                        filter_components(path_split(prefix).drop_last())
                    }
                ));
            }
            start = i + 1;
            proof {
                assert(path_split(prefix1).last() == name@.subrange(
                    start as int,
                    i as int + 1,
                ));
            }
        } else {
            proof {
                assert(path_split(prefix1) == path_split(prefix).update(
                    path_split(prefix).len() - 1,
                    path_split(prefix).last().push(name@[i as int]),
                ));
                assert(path_split(prefix1).drop_last() =~= path_split(prefix).drop_last());
                assert(path_split(prefix1).last() == path_split(prefix).last().push(
                    name@[i as int],
                ));
                assert(path_split(prefix).last().push(name@[i as int]) =~= name@.subrange(
                    start as int,
                    i as int + 1,
                ));
            }
        }
        i += 1;
    }
    proof {
        assert(name@.subrange(0, m as int) =~= name@);
    }
    let comp = name.substring_char(start, m);
    let ok = close_component(&mut out, comp);
    if !ok {
        proof {
            lemma_path_split_nonempty(name@);
            assert(path_split(name@)[path_split(name@).len() - 1] == dotdot());
        }
        return None;
    }
    proof {
        lemma_path_split_nonempty(name@);
        assert(filter_components(path_split(name@)) == (
            if keep_component(path_split(name@).last()) {
                filter_components(path_split(name@).drop_last()).push(path_split(name@).last())
            } else {
                filter_components(path_split(name@).drop_last())
            }
        ));
        assert(is_safe_entry_name(name@)) by {
            assert(forall|k: int|
                0 <= k < m ==> #[trigger] name@[k] != '\0' && name@[k] != ':');
            if name@.contains('\0') {
                let w = choose|w: int| 0 <= w < name@.len() && name@[w] == '\0';
                assert(name@[w] != '\0');
            }
            if name@.contains(':') {
                let w = choose|w: int| 0 <= w < name@.len() && name@[w] == ':';
                assert(name@[w] != ':');
            }
        }
    }
    Some(out)
}

/// What the worker materializes on disk for one safe archive entry:
/// a directory (and its parents), or a file with the entry's bytes (its
/// parents created on demand). The path is the entry's confined relative
/// path below the destination directory.
#[derive(Debug)]
pub enum ExtractStep {
    CreateDir { path: Vec<String> },
    WriteFile { path: Vec<String>, data: Vec<u8> },
}

/// The extraction cursor over an archive of `total` entries: entries are
/// processed in archive order, `next_index` first.
#[derive(Clone, Copy, Debug, PartialEq, Eq, Structural)]
pub struct Extractor {
    pub total: usize,
    pub next_index: usize,
}

impl Extractor {
    /// The cursor never runs past the entry count.
    pub open spec fn wf(&self) -> bool {
        self.next_index <= self.total
    }

    /// Starts extraction at the first entry of an archive of `total`
    /// entries.
    pub fn new(total: usize) -> (r: Extractor)
        ensures
            r.total == total,
            r.next_index == 0,
            r.wf(),
    {
        Extractor { total, next_index: 0 }
    }

    /// Whether the extraction loop processes another entry, given the
    /// cancellation flag as observed at this checkpoint.
    pub open spec fn spec_poll(&self, cancelled: bool) -> bool {
        !cancelled && self.next_index < self.total
    }

    /// Decides whether the extraction loop goes on. When the cancellation
    /// flag was observed set, the loop stops at once: already-extracted
    /// entries stay in place and the stage counts as success.
    pub fn poll(&self, cancelled: bool) -> (r: bool)
        ensures
            r == self.spec_poll(cancelled),
            cancelled ==> !r,
    {
        !cancelled && self.next_index < self.total
    }

    /// The progress fraction reported after the entry at `index` of
    /// `total` was processed: entries processed over entry count.
    pub open spec fn spec_progress_at(total: usize, index: usize) -> Progress {
        Progress { num: (index + 1) as u64, den: total as u64 }
    }

    /// Processes one entry: resolves its stored path to a confined
    /// relative path, decides what to materialize, and reports the
    /// progress fraction after this entry.
    ///
    /// An entry whose stored path cannot be safely confined fails the
    /// extraction with an unsafe-filepath error carrying that stored
    /// path, and nothing is materialized for it.
    pub fn step(&mut self, name: &str, is_dir: bool, data: Vec<u8>) -> (r: Result<
        (ExtractStep, Progress),
        ExtractionError,
    >)
        requires
            old(self).wf(),
            old(self).next_index < old(self).total,
        ensures
            final(self).total == old(self).total,
            final(self).wf(),
            r is Ok <==> is_safe_entry_name(name@),
            r is Ok ==> final(self).next_index == old(self).next_index + 1,
            r is Err ==> *final(self) == *old(self),
            r matches Err(e) ==> (e matches ExtractionError::UnsafeFilepath(n) && n@ == name@),
            r matches Ok((step, prog)) ==> {
                &&& prog == Extractor::spec_progress_at(old(self).total, old(self).next_index)
                &&& prog.wf()
                &&& (is_dir ==> (step matches ExtractStep::CreateDir { path }
                    && path.deep_view() == safe_components(name@)))
                &&& (!is_dir ==> (step matches ExtractStep::WriteFile { path, data: d }
                    && path.deep_view() == safe_components(name@) && d == data))
            },
    {
        let parts = match sanitize_entry_path(name) {
            Some(parts) => parts,
            None => {
                return Err(ExtractionError::UnsafeFilepath(String::from_str(name)));
            },
        };
        let index = self.next_index;
        self.next_index = index + 1;
        let prog = Progress { num: (index as u64) + 1, den: self.total as u64 };
        if is_dir {
            Ok((ExtractStep::CreateDir { path: parts }, prog))
        } else {
            Ok((ExtractStep::WriteFile { path: parts, data }, prog))
        }
    }
}

/// Opens a downloaded archive held in memory for extraction: it succeeds
/// exactly on the byte strings that parse as an archive container, and a
/// container that cannot be parsed fails with an archive error. On
/// success the archive holds the entries those bytes denote and the
/// extraction cursor starts at the first of them.
pub fn open_for_extraction(data: Vec<u8>) -> (r: Result<
    (zip::ZipArchive<std::io::Cursor<Vec<u8>>>, Extractor),
    ExtractionError,
>)
    ensures
        r is Ok <==> parses_as_archive(data@),
        r matches Ok((a, ex)) ==> {
            &&& archive_entries(a) == entries_of(data@)
            &&& ex.total as nat == entries_of(data@).len()
            &&& ex.next_index == 0
            &&& ex.wf()
        },
        r matches Err(e) ==> e matches ExtractionError::ArchiveError(_),
{
    let archive = match zip_open(data) {
        Ok(a) => a,
        Err(e) => {
            return Err(e);
        },
    };
    let total = zip_len(&archive);
    Ok((archive, Extractor::new(total)))
}

/// Reads and processes the next entry of the archive: hands back what to
/// materialize for it and the progress fraction to report after it. It
/// succeeds exactly when the archive reader can read the entry whole and
/// the entry's stored path can be safely confined; an entry whose path
/// cannot be confined fails with an unsafe-filepath error, and nothing
/// is materialized for it.
pub fn extract_next(
    archive: &mut zip::ZipArchive<std::io::Cursor<Vec<u8>>>,
    ex: &mut Extractor,
) -> (r: Result<(ExtractStep, Progress), ExtractionError>)
    requires
        old(ex).wf(),
        old(ex).next_index < old(ex).total,
        old(ex).total as nat == archive_entries(*old(archive)).len(),
    ensures
        archive_entries(*final(archive)) == archive_entries(*old(archive)),
        final(ex).total == old(ex).total,
        final(ex).wf(),
        r is Ok <==> (entry_ok(*old(archive), old(ex).next_index as int) && is_safe_entry_name(
            archive_entries(*old(archive))[old(ex).next_index as int].0,
        )),
        r is Ok ==> final(ex).next_index == old(ex).next_index + 1,
        r matches Ok((step, prog)) ==> {
            let e = archive_entries(*old(archive))[old(ex).next_index as int];
            &&& is_safe_entry_name(e.0)
            &&& prog == Extractor::spec_progress_at(old(ex).total, old(ex).next_index)
            &&& prog.wf()
            &&& (e.1 ==> (step matches ExtractStep::CreateDir { path }
                && path.deep_view() == safe_components(e.0)))
            &&& (!e.1 ==> (step matches ExtractStep::WriteFile { path, data }
                && path.deep_view() == safe_components(e.0) && data@ == e.2))
        },
        r matches Err(err) ==> (match err {
            ExtractionError::UnsafeFilepath(n) => {
                let e = archive_entries(*old(archive))[old(ex).next_index as int];
                n@ == e.0 && !is_safe_entry_name(e.0)
            },
            ExtractionError::ArchiveError(_) => true,
            ExtractionError::IOError(_) => true,
        }),
{
    let entry = match zip_entry(archive, ex.next_index) {
        Ok(e) => e,
        Err(e) => {
            return Err(e);
        },
    };
    ex.step(entry.name.as_str(), entry.is_dir, entry.data)
}


/// For any archive entry whose stored path begins with a
/// parent-directory step or is absolute, the path cannot be safely
/// confined: the entry is rejected as an unsafe filepath and nothing is
/// materialized for it.
pub proof fn lemma_unsafe_prefix_rejected(name: Seq<char>)
    requires
        (name.len() > 0 && is_sep(name[0])) || (name.len() >= 3 && name[0] == '.' && name[1]
            == '.' && is_sep(name[2])),
    ensures
        !is_safe_entry_name(name),
{
    if name.len() > 0 && is_sep(name[0]) {
    } else {
        let s1 = name.subrange(0, 1);
        let s2 = name.subrange(0, 2);
        let s3 = name.subrange(0, 3);
        assert(s1.drop_last() =~= Seq::<char>::empty());
        assert(s2.drop_last() =~= s1);
        assert(s3.drop_last() =~= s2);
        assert(path_split(Seq::<char>::empty()) =~~= seq![Seq::<char>::empty()]);
        assert(s1.last() == '.' && s2.last() == '.' && is_sep(s3.last()));
        assert(path_split(s1) =~~= seq![seq!['.']]);
        assert(path_split(s2) =~~= seq![seq!['.', '.']]);
        assert(path_split(s3) =~~= seq![seq!['.', '.'], Seq::<char>::empty()]);
        lemma_path_split_stable(name, 3);
        assert(path_split(name)[0] == dotdot());
    }
}

/// The file tree written below an empty destination once the entries of
/// an archive were extracted over the tree `files`: each file entry
/// stores its bytes at its confined relative path, later entries
/// overwriting earlier ones.
pub open spec fn written_files(
    entries: Seq<(Seq<char>, bool, Seq<u8>)>,
    files: Map<Seq<Seq<char>>, Seq<u8>>,
) -> Map<Seq<Seq<char>>, Seq<u8>>
    decreases entries.len(),
{
    if entries.len() == 0 {
        files
    } else {
        let prev = written_files(entries.drop_last(), files);
        let e = entries.last();
        if !e.1 {
            prev.insert(safe_components(e.0), e.2)
        } else {
            prev
        }
    }
}

/// The directory markers created once the entries of an archive were
/// extracted over the directory set `dirs`.
pub open spec fn created_dirs(
    entries: Seq<(Seq<char>, bool, Seq<u8>)>,
    dirs: Set<Seq<Seq<char>>>,
) -> Set<Seq<Seq<char>>>
    decreases entries.len(),
{
    if entries.len() == 0 {
        dirs
    } else {
        let prev = created_dirs(entries.drop_last(), dirs);
        let e = entries.last();
        if e.1 {
            prev.insert(safe_components(e.0))
        } else {
            prev
        }
    }
}

/// The bytes the last file entry of `entries` stores at the confined
/// path `k`, if any entry does.
pub open spec fn last_file_write(
    entries: Seq<(Seq<char>, bool, Seq<u8>)>,
    k: Seq<Seq<char>>,
) -> Option<Seq<u8>>
    decreases entries.len(),
{
    if entries.len() == 0 {
        None
    } else {
        let e = entries.last();
        if !e.1 && safe_components(e.0) == k {
            Some(e.2)
        } else {
            last_file_write(entries.drop_last(), k)
        }
    }
}

/// Some directory entry of `entries` creates the confined path `k`.
pub open spec fn some_dir_entry(entries: Seq<(Seq<char>, bool, Seq<u8>)>, k: Seq<Seq<char>>) -> bool
    decreases entries.len(),
{
    if entries.len() == 0 {
        false
    } else {
        let e = entries.last();
        (e.1 && safe_components(e.0) == k) || some_dir_entry(entries.drop_last(), k)
    }
}

/// Pointwise characterization of the written file tree: a path holds the
/// bytes of the last file entry written to it, or what the initial tree
/// already held there.
pub proof fn lemma_written_files_char(
    entries: Seq<(Seq<char>, bool, Seq<u8>)>,
    files: Map<Seq<Seq<char>>, Seq<u8>>,
    k: Seq<Seq<char>>,
)
    ensures
        written_files(entries, files).contains_key(k) <==> (files.contains_key(k)
            || last_file_write(entries, k) is Some),
        written_files(entries, files).contains_key(k) ==> written_files(entries, files)[k] == (
        match last_file_write(entries, k) {
            Some(v) => v,
            None => files[k],
        }),
    decreases entries.len(),
{
    if entries.len() > 0 {
        lemma_written_files_char(entries.drop_last(), files, k);
    }
}

/// Pointwise characterization of the created directory set.
pub proof fn lemma_created_dirs_char(
    entries: Seq<(Seq<char>, bool, Seq<u8>)>,
    dirs: Set<Seq<Seq<char>>>,
    k: Seq<Seq<char>>,
)
    ensures
        created_dirs(entries, dirs).contains(k) <==> (dirs.contains(k) || some_dir_entry(
            entries,
            k,
        )),
    decreases entries.len(),
{
    if entries.len() > 0 {
        lemma_created_dirs_char(entries.drop_last(), dirs, k);
    }
}

/// Idempotent-path invariant: extracting the same archive twice into an
/// empty destination produces byte-identical output trees, the same file
/// tree and the same directory markers as extracting it once.
pub proof fn lemma_extraction_idempotent(entries: Seq<(Seq<char>, bool, Seq<u8>)>)
    ensures
        written_files(entries, written_files(entries, Map::empty())) == written_files(
            entries,
            Map::empty(),
        ),
        created_dirs(entries, created_dirs(entries, Set::empty())) == created_dirs(
            entries,
            Set::empty(),
        ),
{
    let once = written_files(entries, Map::<Seq<Seq<char>>, Seq<u8>>::empty());
    let twice = written_files(entries, once);
    assert forall|k: Seq<Seq<char>>|
        #![auto]
        twice.contains_key(k) == once.contains_key(k) by {
        lemma_written_files_char(entries, once, k);
        lemma_written_files_char(entries, Map::<Seq<Seq<char>>, Seq<u8>>::empty(), k);
    }
    assert forall|k: Seq<Seq<char>>| #![auto] once.contains_key(k) implies twice[k]
        == once[k] by {
        lemma_written_files_char(entries, once, k);
        lemma_written_files_char(entries, Map::<Seq<Seq<char>>, Seq<u8>>::empty(), k);
    }
    assert(twice =~= once);
    let donce = created_dirs(entries, Set::<Seq<Seq<char>>>::empty());
    let dtwice = created_dirs(entries, donce);
    assert forall|k: Seq<Seq<char>>|
        #![auto]
        dtwice.contains(k) == donce.contains(k) by {
        lemma_created_dirs_char(entries, donce, k);
        lemma_created_dirs_char(entries, Set::<Seq<Seq<char>>>::empty(), k);
    }
    assert(dtwice =~= donce);
}


/// Cancellation invariant of the extraction stage: a cancellation flag
/// already set when the entry loop would begin stops the loop before its
/// first entry; the extraction materializes nothing and ends as a
/// success, not an error.
pub proof fn lemma_extract_cancelled_early(total: usize)
    ensures
        !(Extractor { total, next_index: 0 }).spec_poll(true),
{
}

/// The per-entry progress fractions share the entry count as
/// denominator, never decrease along the entries, and reach exactly one
/// on the last entry.
pub proof fn lemma_extract_progress_sequence(total: usize, i: usize, j: usize)
    requires
        i <= j < total,
    ensures
        Extractor::spec_progress_at(total, i).den == total as u64,
        Extractor::spec_progress_at(total, i).num <= Extractor::spec_progress_at(total, j).num,
        Extractor::spec_progress_at(total, j).wf(),
        j == total - 1 ==> Extractor::spec_progress_at(total, j).num
            == Extractor::spec_progress_at(total, j).den,
{
}

} // verus!
