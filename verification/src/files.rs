//! The file context store: an ordered collection of attached files, unique
//! by path, together with the policy that decides which directory entries
//! may be attached.
//!
//! The store itself never touches the filesystem. The caller probes a path
//! (does it exist, is it a directory, what does it hold) and hands the
//! result in as a [`PathProbe`]; every decision made on that probe is
//! verified here.

use vstd::prelude::*;
use vstd::string::*;
use crate::text::str_eq;

verus! {

/// One attached file: its path (the dedup key), its full text content as
/// read at attach time, and the byte length of that content.
pub struct FileContext {
    pub path: String,
    pub content: String,
    pub size: usize,
}

/// Mathematical image of a [`FileContext`].
pub struct FileContextView {
    pub path: Seq<char>,
    pub content: Seq<char>,
    pub size: nat,
}

impl View for FileContext {
    type V = FileContextView;

    open spec fn view(&self) -> FileContextView {
        FileContextView { path: self.path@, content: self.content@, size: self.size as nat }
    }
}

/// Byte length of a text when encoded as UTF-8.
pub open spec fn byte_size(s: Seq<char>) -> nat {
    vstd::utf8::encode_utf8(s).len()
}

/// The store entry recorded for a file with the given path and content.
pub open spec fn entry_for(path: Seq<char>, content: Seq<char>) -> FileContextView {
    FileContextView { path, content, size: (byte_size(content) as usize) as nat }
}

/// True when some entry of `s` carries exactly this path.
pub open spec fn contains_path(s: Seq<FileContextView>, path: Seq<char>) -> bool {
    exists|i: int| 0 <= i < s.len() && s[i].path == path
}

/// What handling one readable file does to the store: nothing when the
/// path is already attached, else exactly one entry appended at the end.
pub open spec fn attach_result(
    store: Seq<FileContextView>,
    path: Seq<char>,
    content: Seq<char>,
) -> Seq<FileContextView> {
    if contains_path(store, path) {
        store
    } else {
        store.push(entry_for(path, content))
    }
}

/// The store a whole sequence of readable-file attachments leaves behind,
/// each handled as [`attach_result`] says.
pub open spec fn attach_run(
    store: Seq<FileContextView>,
    adds: Seq<(Seq<char>, Seq<char>)>,
) -> Seq<FileContextView>
    decreases adds.len(),
{
    if adds.len() == 0 {
        store
    } else {
        attach_run(attach_result(store, adds[0].0, adds[0].1), adds.drop_first())
    }
}

/// Attachments under pairwise distinct paths, none attached yet, all
/// succeed: the store grows by exactly one entry per attachment, keeps
/// what it had, and lists the new entries in attach order.
pub proof fn lemma_attach_run_distinct(
    store: Seq<FileContextView>,
    adds: Seq<(Seq<char>, Seq<char>)>,
)
    requires
        forall|i: int, j: int| 0 <= i < j < adds.len() ==> adds[i].0 != adds[j].0,
        forall|i: int| 0 <= i < adds.len() ==> !contains_path(store, adds[i].0),
    ensures
        attach_run(store, adds).len() == store.len() + adds.len(),
        store.is_prefix_of(attach_run(store, adds)),
        forall|i: int|
            0 <= i < adds.len() ==> attach_run(store, adds)[store.len() + i] == entry_for(
                adds[i].0,
                adds[i].1,
            ),
    decreases adds.len(),
{
    if adds.len() > 0 {
        assert(!contains_path(store, adds[0].0));
        let pushed = store.push(entry_for(adds[0].0, adds[0].1));
        assert(attach_result(store, adds[0].0, adds[0].1) == pushed);
        let rest = adds.drop_first();
        assert forall|i: int| 0 <= i < rest.len() implies !contains_path(pushed, rest[i].0) by {
            assert(rest[i] == adds[i + 1]);
            assert(adds[i + 1].0 != adds[0].0);
            if contains_path(pushed, rest[i].0) {
                let k = choose|k: int|
                    0 <= k < pushed.len() && pushed[k].path == rest[i].0;
                if k < store.len() {
                    assert(contains_path(store, adds[i + 1].0));
                } else {
                    assert(pushed[k] == entry_for(adds[0].0, adds[0].1));
                }
            }
        }
        lemma_attach_run_distinct(pushed, rest);
        assert(store.is_prefix_of(pushed));
        assert(store.is_prefix_of(attach_run(store, adds)));
        assert forall|i: int|
            0 <= i < adds.len() implies attach_run(store, adds)[store.len() + i] == entry_for(
            adds[i].0,
            adds[i].1,
        ) by {
            if i == 0 {
                assert(pushed.is_prefix_of(attach_run(pushed, rest)));
                assert(attach_run(pushed, rest)[store.len() as int] == pushed[store.len() as int]);
            } else {
                assert(rest[i - 1] == adds[i]);
                assert(attach_run(pushed, rest)[pushed.len() + (i - 1)] == entry_for(
                    rest[i - 1].0,
                    rest[i - 1].1,
                ));
            }
        }
    }
}

/// What a caller found out about one entry of a directory listing: its
/// path, whether it is a regular file, and its text content (`None` when
/// the file could not be read as text).
pub struct DirEntry {
    pub path: String,
    pub is_file: bool,
    pub content: Option<String>,
}

/// Mathematical image of a [`DirEntry`].
pub struct DirEntryView {
    pub path: Seq<char>,
    pub is_file: bool,
    pub content: Option<Seq<char>>,
}

impl View for DirEntry {
    type V = DirEntryView;

    open spec fn view(&self) -> DirEntryView {
        DirEntryView {
            path: self.path@,
            is_file: self.is_file,
            content: if self.content is Some {
                Some(self.content->0@)
            } else {
                None
            },
        }
    }
}

/// What a caller found out about a path it probed for attaching.
pub enum PathProbe {
    /// Nothing exists at the path.
    Missing,
    /// A regular file whose content could be read as text.
    TextFile(String),
    /// A regular file that could not be read as text.
    UnreadableFile,
    /// A directory, with its immediate entries.
    Directory(Vec<DirEntry>),
}

/// Failures of the file context store.
#[derive(Debug, Clone, Copy, PartialEq, Eq, Structural)]
pub enum FileError {
    /// The path does not exist.
    NotFound,
    /// An entry with the same path is already attached.
    Duplicate,
    /// The file exists but could not be read as text.
    ReadError,
    /// Directory expansion attached nothing.
    NoSupportedFiles,
}

// --- extension allow-list -------------------------------------------------

/// The suffix of `s` after the last occurrence of `c`; all of `s` when `c`
/// does not occur.
pub open spec fn after_last(s: Seq<char>, c: char) -> Seq<char>
    decreases s.len(),
{
    if s.len() == 0 {
        s
    } else if s.last() == c {
        Seq::empty()
    } else {
        after_last(s.drop_last(), c).push(s.last())
    }
}

/// True when the name holds a dot anywhere but as its first character, so
/// that a hidden file such as `.profile` has no extension.
pub open spec fn has_dot_after_first(name: Seq<char>) -> bool {
    exists|i: int| 1 <= i < name.len() && name[i] == '.'
}

/// The extension of a path: the part of its final component after the last
/// dot, when that dot is not the component's first character.
pub open spec fn extension_of(path: Seq<char>) -> Option<Seq<char>> {
    let name = after_last(path, '/');
    if has_dot_after_first(name) {
        Some(after_last(name, '.'))
    } else {
        None
    }
}

/// Case-insensitive equality against an ASCII word given in both cases.
pub open spec fn ci_eq(a: Seq<char>, low: Seq<char>, up: Seq<char>) -> bool {
    a.len() == low.len() && forall|i: int| 0 <= i < a.len() ==> a[i] == low[i] || a[i] == up[i]
}

/// The extension allow-list for directory expansion, matched without
/// regard to ASCII case.
pub open spec fn supported_ext_name(e: Seq<char>) -> bool {
    ||| ci_eq(e, "txt"@, "TXT"@)
    ||| ci_eq(e, "md"@, "MD"@)
    ||| ci_eq(e, "rs"@, "RS"@)
    ||| ci_eq(e, "py"@, "PY"@)
    ||| ci_eq(e, "js"@, "JS"@)
    ||| ci_eq(e, "ts"@, "TS"@)
    ||| ci_eq(e, "html"@, "HTML"@)
    ||| ci_eq(e, "css"@, "CSS"@)
    ||| ci_eq(e, "json"@, "JSON"@)
    ||| ci_eq(e, "xml"@, "XML"@)
    ||| ci_eq(e, "yml"@, "YML"@)
    ||| ci_eq(e, "yaml"@, "YAML"@)
    ||| ci_eq(e, "toml"@, "TOML"@)
    ||| ci_eq(e, "sh"@, "SH"@)
    ||| ci_eq(e, "bat"@, "BAT"@)
}

/// True when the path has an extension on the allow-list.
pub open spec fn supported_extension(path: Seq<char>) -> bool {
    match extension_of(path) {
        Some(e) => supported_ext_name(e),
        None => false,
    }
}

/// When everything from index `k` on differs from `c`, and `c` stands just
/// before `k` (unless `k` is 0 and `c` is absent), the suffix after the
/// last `c` starts exactly at `k`.
proof fn lemma_after_last_at(s: Seq<char>, c: char, k: int)
    requires
        0 <= k <= s.len(),
        forall|i: int| k <= i < s.len() ==> s[i] != c,
        k > 0 ==> s[k - 1] == c,
    ensures
        after_last(s, c) =~= s.skip(k),
    decreases s.len(),
{
    if s.len() == 0 {
        assert(after_last(s, c) =~= s.skip(0));
    } else if s.last() == c {
        assert(k == s.len());
        assert(after_last(s, c) =~= s.skip(k));
    } else {
        assert(k < s.len());
        lemma_after_last_at(s.drop_last(), c, k);
        assert(after_last(s, c) =~= s.drop_last().skip(k).push(s.last()));
        assert(s.drop_last().skip(k).push(s.last()) =~= s.skip(k));
    }
}

/// Case-insensitive comparison against an ASCII word given in both cases.
fn eq_ci(a: &str, low: &str, up: &str) -> (r: bool)
    requires
        low@.len() == up@.len(),
    ensures
        r == ci_eq(a@, low@, up@),
{
    let alen = a.unicode_len();
    let llen = low.unicode_len();
    if alen != llen {
        return false;
    }
    let mut i: usize = 0;
    while i < alen
        invariant
            i <= alen,
            alen == a@.len(),
            alen == low@.len(),
            alen == up@.len(),
            forall|j: int| 0 <= j < i ==> a@[j] == low@[j] || a@[j] == up@[j],
        decreases alen - i,
    {
        let c = a.get_char(i);
        if c != low.get_char(i) && c != up.get_char(i) {
            return false;
        }
        i = i + 1;
    }
    true
}

/// Find where the suffix after the last occurrence of `c` starts.
fn cut_after_last(s: &str, c: char) -> (k: usize)
    ensures
        k <= s@.len(),
        forall|i: int| k <= i < s@.len() ==> s@[i] != c,
        k > 0 ==> s@[k - 1] == c,
        after_last(s@, c) =~= s@.skip(k as int),
{
    let len = s.unicode_len();
    let mut k = len;
    while k > 0 && s.get_char(k - 1) != c
        invariant
            k <= len,
            len == s@.len(),
            forall|i: int| k <= i < len ==> s@[i] != c,
        decreases k,
    {
        k = k - 1;
    }
    proof {
        lemma_after_last_at(s@, c, k as int);
    }
    k
}

/// Allow-list test on a whole path.
pub fn extension_supported(path: &str) -> (r: bool)
    ensures
        r == supported_extension(path@),
{
    let len = path.unicode_len();
    let slash = cut_after_last(path, '/');
    let name = path.substring_char(slash, len);
    proof {
        assert(name@ == after_last(path@, '/'));
    }
    let nlen = name.unicode_len();
    let dot = cut_after_last(name, '.');
    if dot < 2 {
        proof {
            assert(!has_dot_after_first(name@));
        }
        return false;
    }
    proof {
        assert(name@[dot - 1] == '.');
        assert(has_dot_after_first(name@));
    }
    let ext = name.substring_char(dot, nlen);
    proof {
        assert(ext@ == after_last(name@, '.'));
        reveal_strlit("txt");
        reveal_strlit("TXT");
        reveal_strlit("md");
        reveal_strlit("MD");
        reveal_strlit("rs");
        reveal_strlit("RS");
        reveal_strlit("py");
        reveal_strlit("PY");
        reveal_strlit("js");
        reveal_strlit("JS");
        reveal_strlit("ts");
        reveal_strlit("TS");
        reveal_strlit("html");
        reveal_strlit("HTML");
        reveal_strlit("css");
        reveal_strlit("CSS");
        reveal_strlit("json");
        reveal_strlit("JSON");
        reveal_strlit("xml");
        reveal_strlit("XML");
        reveal_strlit("yml");
        reveal_strlit("YML");
        reveal_strlit("yaml");
        reveal_strlit("YAML");
        reveal_strlit("toml");
        reveal_strlit("TOML");
        reveal_strlit("sh");
        reveal_strlit("SH");
        reveal_strlit("bat");
        reveal_strlit("BAT");
    }
    eq_ci(ext, "txt", "TXT") || eq_ci(ext, "md", "MD") || eq_ci(ext, "rs", "RS") || eq_ci(
        ext,
        "py",
        "PY",
    ) || eq_ci(ext, "js", "JS") || eq_ci(ext, "ts", "TS") || eq_ci(ext, "html", "HTML") || eq_ci(
        ext,
        "css",
        "CSS",
    ) || eq_ci(ext, "json", "JSON") || eq_ci(ext, "xml", "XML") || eq_ci(ext, "yml", "YML")
        || eq_ci(ext, "yaml", "YAML") || eq_ci(ext, "toml", "TOML") || eq_ci(ext, "sh", "SH")
        || eq_ci(ext, "bat", "BAT")
}

// --- directory expansion --------------------------------------------------

/// A directory entry is attached when it is a regular file with a
/// supported extension, its content was readable, and its path is not yet
/// in the store (including files attached earlier in the same expansion).
pub open spec fn dir_entry_accepted(store: Seq<FileContextView>, e: DirEntryView) -> bool {
    &&& e.is_file
    &&& supported_extension(e.path)
    &&& e.content is Some
    &&& !contains_path(store, e.path)
}

/// The store contents after expanding a directory listing, entry by entry
/// in listing order.
pub open spec fn expand_dir(store: Seq<FileContextView>, entries: Seq<DirEntryView>) -> Seq<
    FileContextView,
>
    decreases entries.len(),
{
    if entries.len() == 0 {
        store
    } else if dir_entry_accepted(store, entries[0]) {
        expand_dir(store.push(entry_for(entries[0].path, entries[0].content->0)), entries.drop_first())
    } else {
        expand_dir(store, entries.drop_first())
    }
}

/// Expansion never removes entries.
pub proof fn lemma_expand_dir_grows(store: Seq<FileContextView>, entries: Seq<DirEntryView>)
    ensures
        store.len() <= expand_dir(store, entries).len(),
        store.is_prefix_of(expand_dir(store, entries)),
    decreases entries.len(),
{
    if entries.len() > 0 {
        if dir_entry_accepted(store, entries[0]) {
            let pushed = store.push(entry_for(entries[0].path, entries[0].content->0));
            lemma_expand_dir_grows(pushed, entries.drop_first());
            assert(store.is_prefix_of(pushed));
            assert(store.is_prefix_of(expand_dir(store, entries)));
        } else {
            lemma_expand_dir_grows(store, entries.drop_first());
        }
    }
}

// --- the store --------------------------------------------------------------

/// Ordered collection of attached files, unique by path.
pub struct FileStore {
    entries: Vec<FileContext>,
}

impl View for FileStore {
    type V = Seq<FileContextView>;

    closed spec fn view(&self) -> Seq<FileContextView> {
        self.entries@.map_values(|e: FileContext| e@)
    }
}

/// Total of the recorded byte sizes of a store's entries.
pub open spec fn sum_sizes(s: Seq<FileContextView>) -> int
    decreases s.len(),
{
    if s.len() == 0 {
        0
    } else {
        s[0].size + sum_sizes(s.drop_first())
    }
}

proof fn lemma_sum_sizes_snoc(s: Seq<FileContextView>, i: int)
    requires
        0 <= i < s.len(),
    ensures
        sum_sizes(s.take(i + 1)) == sum_sizes(s.take(i)) + s[i].size,
    decreases i,
{
    if i == 0 {
        assert(s.take(1)[0] == s[0]);
        assert(s.take(1).drop_first() =~= Seq::<FileContextView>::empty());
        assert(sum_sizes(s.take(1)) == s.take(1)[0].size + sum_sizes(s.take(1).drop_first()));
        assert(sum_sizes(s.take(0)) == 0);
    } else {
        lemma_sum_sizes_snoc(s.drop_first(), i - 1);
        assert(s.take(i + 1).drop_first() =~= s.drop_first().take(i));
        assert(s.take(i).drop_first() =~= s.drop_first().take(i - 1));
        assert(s.take(i + 1)[0] == s[0]);
        assert(s.take(i)[0] == s[0]);
        assert(s.drop_first()[i - 1] == s[i]);
        assert(sum_sizes(s.take(i + 1)) == s.take(i + 1)[0].size + sum_sizes(
            s.take(i + 1).drop_first(),
        ));
        assert(sum_sizes(s.take(i)) == s.take(i)[0].size + sum_sizes(s.take(i).drop_first()));
    }
}

impl FileStore {
    /// No two entries share a path.
    pub open spec fn wf(&self) -> bool {
        forall|i: int, j: int|
            0 <= i < j < self@.len() ==> self@[i].path != self@[j].path
    }

    /// An empty store.
    pub fn new() -> (s: Self)
        ensures
            s@ == Seq::<FileContextView>::empty(),
            s.wf(),
    {
        let s = FileStore { entries: Vec::new() };
        proof {
            assert(s@ =~= Seq::<FileContextView>::empty());
        }
        s
    }

    /// Number of attached files.
    pub fn len(&self) -> (n: usize)
        ensures
            n == self@.len(),
    {
        self.entries.len()
    }

    /// The attached files, in attach order.
    pub fn files(&self) -> (r: &Vec<FileContext>)
        ensures
            r@.map_values(|e: FileContext| e@) == self@,
    {
        &self.entries
    }

    /// Where an entry with this path stands, if anywhere.
    fn index_of_path(&self, path: &str) -> (r: Option<usize>)
        ensures
            match r {
                Some(i) => i < self@.len() && self@[i as int].path == path@,
                None => !contains_path(self@, path@),
            },
    {
        let n = self.entries.len();
        let mut i: usize = 0;
        while i < n
            invariant
                i <= n,
                n == self@.len(),
                n == self.entries@.len(),
                forall|j: int| 0 <= j < i ==> self@[j].path != path@,
            decreases n - i,
        {
            if str_eq(self.entries[i].path.as_str(), path) {
                return Some(i);
            }
            i = i + 1;
        }
        None
    }

    /// Attach what a probe of `path` found, as the probe's own section of
    /// the contract says: a missing path is `NotFound`, an unreadable file
    /// `ReadError`, a readable file is attached unless its path already is,
    /// and a directory is expanded entry by entry.
    pub fn add_file(&mut self, path: &str, probe: PathProbe) -> (r: Result<(), FileError>)
        requires
            old(self).wf(),
        ensures
            final(self).wf(),
            probe is Missing ==> r == Err::<(), FileError>(FileError::NotFound) && final(self)@
                == old(self)@,
            probe is UnreadableFile ==> r == Err::<(), FileError>(FileError::ReadError)
                && final(self)@ == old(self)@,
            probe matches PathProbe::TextFile(content) ==> {
                &&& final(self)@ == attach_result(old(self)@, path@, content@)
                &&& (r == Ok::<(), FileError>(()) <==> !contains_path(old(self)@, path@))
                &&& (r == Err::<(), FileError>(FileError::Duplicate) <==> contains_path(
                    old(self)@,
                    path@,
                ))
            },
            probe matches PathProbe::Directory(entries) ==> {
                let result = expand_dir(old(self)@, entries@.map_values(|e: DirEntry| e@));
                &&& final(self)@ == result
                &&& (result.len() > old(self)@.len() ==> r == Ok::<(), FileError>(()))
                &&& (result.len() == old(self)@.len() ==> r == Err::<(), FileError>(
                    FileError::NoSupportedFiles,
                ))
            },
    {
        match probe {
            PathProbe::Missing => Err(FileError::NotFound),
            PathProbe::UnreadableFile => Err(FileError::ReadError),
            PathProbe::TextFile(content) => {
                if self.index_of_path(path).is_some() {
                    Err(FileError::Duplicate)
                } else {
                    let size = content.as_str().len();
                    let entry = FileContext { path: path.to_owned(), content, size };
                    self.entries.push(entry);
                    proof {
                        assert(self@ =~= old(self)@.push(entry_for(path@, entry.content@)));
                    }
                    Ok(())
                }
            },
            PathProbe::Directory(entries) => {
                proof {
                    lemma_expand_dir_grows(
                        old(self)@,
                        entries@.map_values(|e: DirEntry| e@),
                    );
                }
                match self.add_directory(entries) {
                    Ok(_) => Ok(()),
                    Err(e) => Err(e),
                }
            },
        }
    }

    /// Expand a directory listing: attach every regular file with a
    /// supported extension that is readable and not yet attached, in
    /// listing order. Fails only when nothing was attached.
    pub fn add_directory(&mut self, entries: Vec<DirEntry>) -> (r: Result<usize, FileError>)
        requires
            old(self).wf(),
        ensures
            final(self).wf(),
            final(self)@ == expand_dir(old(self)@, entries@.map_values(|e: DirEntry| e@)),
            final(self)@.len() > old(self)@.len() ==> r == Ok::<usize, FileError>(
                (final(self)@.len() - old(self)@.len()) as usize,
            ),
            final(self)@.len() == old(self)@.len() ==> r == Err::<usize, FileError>(
                FileError::NoSupportedFiles,
            ),
    {
        let ghost em = entries@.map_values(|e: DirEntry| e@);
        let n = entries.len();
        let mut added: usize = 0;
        let mut k: usize = 0;
        proof {
            assert(em.skip(0) =~= em);
        }
        while k < n
            invariant
                k <= n,
                n == entries@.len(),
                em == entries@.map_values(|e: DirEntry| e@),
                self.wf(),
                expand_dir(old(self)@, em) == expand_dir(self@, em.skip(k as int)),
                self@.len() == old(self)@.len() + added,
                added <= k,
            decreases n - k,
        {
            let ghost pre = self@;
            let ghost rest = em.skip(k as int);
            proof {
                assert(rest[0] == em[k as int]);
                assert(em[k as int] == entries@[k as int]@);
                assert(rest.drop_first() =~= em.skip(k as int + 1));
            }
            let e = &entries[k];
            let mut accepted = false;
            if e.is_file && extension_supported(e.path.as_str()) {
                match e.content.as_ref() {
                    Some(content) => {
                        if self.index_of_path(e.path.as_str()).is_none() {
                            accepted = true;
                            let size = content.as_str().len();
                            let entry = FileContext {
                                path: e.path.clone(),
                                content: content.clone(),
                                size,
                            };
                            proof {
                                assert(!contains_path(pre, entry.path@));
                            }
                            self.entries.push(entry);
                            added = added + 1;
                            proof {
                                assert(self@ =~= pre.push(entry_for(e.path@, e.content->0@)));
                                assert forall|i: int, j: int|
                                    0 <= i < j < self@.len() implies self@[i].path
                                    != self@[j].path by {
                                    if j < self@.len() - 1 {
                                        assert(pre[i].path != pre[j].path);
                                    } else {
                                        assert(self@[i] == pre[i]);
                                    }
                                }
                            }
                        }
                    },
                    None => {},
                }
            }
            proof {
                if accepted {
                    assert(dir_entry_accepted(pre, rest[0]));
                    assert(expand_dir(pre, rest) == expand_dir(self@, em.skip(k as int + 1)));
                } else {
                    assert(!dir_entry_accepted(pre, rest[0]));
                    assert(self@ == pre);
                    assert(expand_dir(pre, rest) == expand_dir(self@, em.skip(k as int + 1)));
                }
            }
            k = k + 1;
        }
        proof {
            assert(em.skip(n as int) =~= Seq::<DirEntryView>::empty());
            assert(expand_dir(self@, em.skip(n as int)) == self@);
        }
        if added == 0 {
            Err(FileError::NoSupportedFiles)
        } else {
            Ok(added)
        }
    }

    /// Detach the entry with exactly this path; `NotFound` when no entry
    /// carries it. On success the store shrinks by exactly one and the
    /// path is absent afterwards.
    pub fn remove_file(&mut self, path: &str) -> (r: Result<(), FileError>)
        requires
            old(self).wf(),
        ensures
            final(self).wf(),
            contains_path(old(self)@, path@) ==> {
                &&& r == Ok::<(), FileError>(())
                &&& exists|i: int|
                    0 <= i < old(self)@.len() && old(self)@[i].path == path@
                        && final(self)@ == old(self)@.remove(i)
                &&& final(self)@.len() == old(self)@.len() - 1
                &&& !contains_path(final(self)@, path@)
            },
            !contains_path(old(self)@, path@) ==> r == Err::<(), FileError>(FileError::NotFound)
                && final(self)@ == old(self)@,
    {
        match self.index_of_path(path) {
            Some(i) => {
                let ghost pre = self@;
                self.entries.remove(i);
                proof {
                    assert(self@ =~= pre.remove(i as int));
                    assert forall|j: int|
                        0 <= j < self@.len() implies self@[j].path != path@ by {
                        if j < i {
                            assert(self@[j] == pre[j]);
                        } else {
                            assert(self@[j] == pre[j + 1]);
                        }
                    }
                }
                Ok(())
            },
            None => Err(FileError::NotFound),
        }
    }

    /// Detach everything.
    pub fn clear(&mut self)
        ensures
            final(self)@ == Seq::<FileContextView>::empty(),
            final(self).wf(),
    {
        self.entries.clear();
        proof {
            assert(self@ =~= Seq::<FileContextView>::empty());
        }
    }

    /// Total recorded byte size of all attached files.
    pub fn total_bytes(&self) -> (total: u128)
        ensures
            total as int == sum_sizes(self@),
    {
        let n = self.entries.len();
        let mut total: u128 = 0;
        let mut i: usize = 0;
        proof {
            assert(self@.take(0) =~= Seq::<FileContextView>::empty());
        }
        while i < n
            invariant
                i <= n,
                n == self@.len(),
                n == self.entries@.len(),
                total as int == sum_sizes(self@.take(i as int)),
                total <= (i as u128) * 0xffff_ffff_ffff_ffffu128,
            decreases n - i,
        {
            let size = self.entries[i].size;
            proof {
                lemma_sum_sizes_snoc(self@, i as int);
                assert(self@[i as int].size == self.entries@[i as int].size as nat);
                assert(size as u128 <= 0xffff_ffff_ffff_ffffu128);
            }
            total = total + (size as u128);
            i = i + 1;
        }
        proof {
            assert(self@.take(n as int) =~= self@);
        }
        total
    }
}

}
