//! Project packager: turns an in-memory listing of a project directory
//! into a validated, size-bounded gzip-compressed tar archive, honoring
//! hidden-file and gitignore-style exclusion rules.

use std::io::Read;
use std::io::Write;
use vstd::prelude::*;

verus! {

/// One file of a project, with its path relative to the project root
/// in `/`-separated form, and its contents.
#[derive(Clone, Debug)]
pub struct FileEntry {
    pub path: String,
    pub data: Vec<u8>,
}

/// The entries of a listing as mathematical pairs of path and contents.
pub open spec fn entry_views(es: Seq<FileEntry>) -> Seq<(Seq<char>, Seq<u8>)> {
    es.map(|i: int, e: FileEntry| (e.path@, e.data@))
}

/// The paths of a sequence of entry views.
pub open spec fn entry_names(es: Seq<(Seq<char>, Seq<u8>)>) -> Seq<Seq<char>> {
    es.map(|i: int, e: (Seq<char>, Seq<u8>)| e.0)
}

/// Whether the bytes form one syntactically valid JSON document: what
/// `serde_json` decides, a function of the bytes alone.
pub uninterp spec fn json_valid(s: Seq<u8>) -> bool;

/// Relies on `serde_json::from_slice`: whether the bytes parse as one
/// JSON value is a function of the bytes alone. Returns the parser's
/// message when they do not.
#[verifier::external_body]
fn json_check(data: &Vec<u8>) -> (r: Option<String>)
    ensures
        r is None <==> json_valid(data@),
{
    match serde_json::from_slice::<serde_json::Value>(&data[..]) {
        Ok(_) => None,
        Err(e) => Some(e.to_string()),
    }
}

/// What one gitignore-style file says about one path.
#[derive(Clone, Copy, Debug, PartialEq, Eq, Structural)]
pub enum IgnoreVerdict {
    /// No pattern matched; the file is silent about the path.
    NoMatch,
    /// The last matching pattern ignores the path.
    Ignored,
    /// The last matching pattern is a negation that re-includes it.
    Whitelisted,
}

/// What the gitignore-style matcher of the `ignore` crate decides for
/// one relative path against the rules in an ignore file's bytes:
/// a function of the rules, the path, and whether it names a directory.
pub uninterp spec fn ignore_verdict(rules: Seq<u8>, path: Seq<char>, is_dir: bool) -> IgnoreVerdict;

/// Relies on `ignore::gitignore`: builds a matcher from the ignore
/// file's lines and matches the one path against it, negation patterns
/// included; the verdict depends on the rules and the path alone.
#[verifier::external_body]
fn gitignore_verdict(rules: &Vec<u8>, path: &str, is_dir: bool) -> (r: IgnoreVerdict)
    ensures
        r == ignore_verdict(rules@, path@, is_dir),
{
    let text = String::from_utf8_lossy(&rules[..]).into_owned();
    let mut builder = ignore::gitignore::GitignoreBuilder::new("");
    for line in text.lines() {
        let _ = builder.add_line(None, line);
    }
    match builder.build() {
        Ok(matcher) => match matcher.matched(path, is_dir) {
            ignore::Match::None => IgnoreVerdict::NoMatch,
            ignore::Match::Ignore(_) => IgnoreVerdict::Ignored,
            ignore::Match::Whitelist(_) => IgnoreVerdict::Whitelisted,
        },
        Err(_) => IgnoreVerdict::NoMatch,
    }
}

/// What `tar::Builder` produces when each entry is appended with a
/// fixed plain-file header: a function of the paths and contents alone.
pub uninterp spec fn tar_of(entries: Seq<(Seq<char>, Seq<u8>)>) -> Seq<u8>;

/// A path the archive format stores as given: nonempty, relative, with
/// no empty component and no NUL character (which a `String` can hold
/// even though file names cannot), so that no normalization or
/// rejection occurs.
pub open spec fn clean_component_path(p: Seq<char>) -> bool {
    &&& p.len() > 0
    &&& p[0] != '/'
    &&& p[p.len() - 1] != '/'
    &&& forall|i: int| 0 <= i < p.len() - 1 ==> !((#[trigger] p[i]) == '/' && p[i + 1] == '/')
    &&& forall|i: int| 0 <= i < p.len() ==> (#[trigger] p[i]) != '\0'
}

/// Whether some component of the path starts with a dot, the path's
/// first character included.
pub open spec fn is_hidden_path(p: Seq<char>) -> bool {
    exists|i: int| 0 <= i < p.len() && (#[trigger] p[i]) == '.' && (i == 0 || p[i - 1] == '/')
}

/// Relies on `tar::Builder::append_data` writing to an in-memory
/// buffer: with clean relative paths free of dot-led components it
/// rejects nothing, performs no fallible I/O, and stores each entry's
/// path and bytes as given.
#[verifier::external_body]
fn tar_archive(entries: &Vec<FileEntry>) -> (r: Vec<u8>)
    requires
        forall|i: int| 0 <= i < entries@.len() ==> clean_component_path(
            #[trigger] entries@[i].path@,
        ) && !is_hidden_path(entries@[i].path@),
    ensures
        r@ == tar_of(entry_views(entries@)),
{
    let mut builder = tar::Builder::new(Vec::new());
    for e in entries.iter() {
        let mut header = tar::Header::new_gnu();
        header.set_size(e.data.len() as u64);
        header.set_mode(0o644);
        builder
            .append_data(&mut header, &e.path, &e.data[..])
            .expect("appending a clean path to an in-memory archive does not fail");
    }
    builder.into_inner().expect("finishing an in-memory archive does not fail")
}

/// Relies on `tar::Archive`: reading an archive back yields exactly the
/// entries that `tar::Builder` wrote, in order, so the listed paths of
/// a built archive are the paths that went in.
#[verifier::external_body]
fn tar_entry_paths(data: &Vec<u8>) -> (r: Option<Vec<String>>)
    ensures
        forall|es: Seq<(Seq<char>, Seq<u8>)>| data@ == tar_of(es) ==> r is Some
            && r.unwrap().deep_view() == entry_names(es),
{
    let mut archive = tar::Archive::new(&data[..]);
    let mut out: Vec<String> = Vec::new();
    let entries = archive.entries().ok()?;
    for entry in entries {
        let entry = entry.ok()?;
        let path = entry.path().ok()?;
        out.push(path.to_string_lossy().into_owned());
    }
    Some(out)
}

/// What `flate2`'s gzip encoder produces at the default level: its
/// header is fixed, so the output is a function of the input alone.
pub uninterp spec fn gzip_of(s: Seq<u8>) -> Seq<u8>;

/// Relies on `flate2::write::GzEncoder` at the default level: writing
/// to an in-memory buffer cannot fail, the output depends on the input
/// bytes alone, and it always carries the fixed ten-byte header and the
/// trailer, so it is never empty.
#[verifier::external_body]
fn gzip_compress(data: &Vec<u8>) -> (r: Vec<u8>)
    ensures
        r@ == gzip_of(data@),
        r@.len() > 0,
{
    let mut enc = flate2::write::GzEncoder::new(Vec::new(), flate2::Compression::default());
    enc.write_all(&data[..]).expect("in-memory gzip compression does not fail");
    enc.finish().expect("in-memory gzip compression does not fail")
}

/// Relies on `flate2::read::GzDecoder`: decoding inverts encoding, so a
/// buffer the encoder produced decodes back to what was encoded.
#[verifier::external_body]
fn gzip_decompress(data: &Vec<u8>) -> (r: Option<Vec<u8>>)
    ensures
        forall|s: Seq<u8>| data@ == gzip_of(s) ==> r is Some && r.unwrap()@ == s,
{
    let mut out: Vec<u8> = Vec::new();
    let mut dec = flate2::read::GzDecoder::new(&data[..]);
    match dec.read_to_end(&mut out) {
        Ok(_) => Some(out),
        Err(_) => None,
    }
}

/// Lists the file paths of a packaged archive: for any archive this
/// packager produced, exactly the paths that were stored, in order.
/// The inverse view of packaging, used to inspect an upload or a
/// downloaded project before unpacking it.
pub fn archive_file_names(packed: &Vec<u8>) -> (r: Option<Vec<String>>)
    ensures
        forall|es: Seq<(Seq<char>, Seq<u8>)>| packed@ == gzip_of(tar_of(es)) ==> r is Some
            && r.unwrap().deep_view() == entry_names(es),
{
    match gzip_decompress(packed) {
        None => None,
        Some(tar_bytes) => tar_entry_paths(&tar_bytes),
    }
}

/// The verdict the ignore file of one scope gives a query path. The
/// root scope (`e == -1`) consults the listing's file named `name` and
/// matches the query as it stands; a directory scope ending at the
/// slash at position `e` consults `<scope>/<name>` and matches the
/// query relative to that directory.
pub open spec fn scope_verdict(
    es: Seq<(Seq<char>, Seq<u8>)>,
    name: Seq<char>,
    q: Seq<char>,
    is_dir: bool,
    e: int,
) -> IgnoreVerdict {
    let file = if e < 0 {
        name
    } else {
        q.take(e) + "/"@ + name
    };
    let rel = if e < 0 {
        q
    } else {
        q.skip(e + 1)
    };
    match first_file_data(es, file) {
        None => IgnoreVerdict::NoMatch,
        Some(rules) => ignore_verdict(rules, rel, is_dir),
    }
}

/// The governing verdict for a query path within one ignore layer,
/// consulting the scopes from position `e` leftward and ending at the
/// root: the deepest file whose patterns match decides, so a negation
/// in a subdirectory's file overrides a shallower file's rule, as the
/// walker of the `ignore` crate resolves it.
pub open spec fn layer_verdict_from(
    es: Seq<(Seq<char>, Seq<u8>)>,
    name: Seq<char>,
    q: Seq<char>,
    is_dir: bool,
    e: int,
) -> IgnoreVerdict
    decreases e + 1,
{
    if e < 0 {
        scope_verdict(es, name, q, is_dir, -1)
    } else if 0 < e < q.len() && q[e] == '/' {
        match scope_verdict(es, name, q, is_dir, e) {
            IgnoreVerdict::NoMatch => layer_verdict_from(es, name, q, is_dir, e - 1),
            v => v,
        }
    } else {
        layer_verdict_from(es, name, q, is_dir, e - 1)
    }
}

/// The governing verdict for a query path within one ignore layer.
pub open spec fn layer_verdict(
    es: Seq<(Seq<char>, Seq<u8>)>,
    name: Seq<char>,
    q: Seq<char>,
    is_dir: bool,
) -> IgnoreVerdict {
    layer_verdict_from(es, name, q, is_dir, q.len() - 1)
}

/// Whether one ignore layer excludes a file path: the path itself, or
/// some directory above it, is left ignored by the layer's governing
/// verdict (a matched directory excludes everything under it).
pub open spec fn layer_excludes(
    es: Seq<(Seq<char>, Seq<u8>)>,
    name: Seq<char>,
    path: Seq<char>,
) -> bool {
    ||| layer_verdict(es, name, path, false) == IgnoreVerdict::Ignored
    ||| exists|i: int| 0 < i < path.len() && (#[trigger] path[i]) == '/' && layer_verdict(
        es,
        name,
        path.take(i),
        true,
    ) == IgnoreVerdict::Ignored
}

/// Whether a path is excluded from packaging, as the disjunction of the
/// three independent layers: hidden components, the version-control
/// ignore files, and the project-specific ignore files, each layer
/// honoring the listing's ignore files at every directory level.
pub open spec fn spec_excluded(es: Seq<(Seq<char>, Seq<u8>)>, path: Seq<char>) -> bool {
    ||| is_hidden_path(path)
    ||| layer_excludes(es, ".gitignore"@, path)
    ||| layer_excludes(es, ".sindriignore"@, path)
}

/// Whether some component of the path starts with a dot.
pub fn path_is_hidden(path: &String) -> (r: bool)
    ensures
        r == is_hidden_path(path@),
{
    let s = path.as_str();
    let n = s.unicode_len();
    let mut i: usize = 0;
    while i < n
        invariant
            i <= n == path@.len(),
            s@ == path@,
            forall|j: int| 0 <= j < i ==> !((#[trigger] path@[j]) == '.' && (j == 0 || path@[j
                - 1] == '/')),
        decreases n - i,
    {
        let c = s.get_char(i);
        if c == '.' && (i == 0 || s.get_char(i - 1) == '/') {
            return true;
        }
        i = i + 1;
    }
    false
}

/// Whether the path is stored by the archive format as given.
pub fn path_is_clean(path: &String) -> (r: bool)
    ensures
        r == clean_component_path(path@),
{
    let s = path.as_str();
    let n = s.unicode_len();
    if n == 0 {
        return false;
    }
    if s.get_char(0) == '/' || s.get_char(n - 1) == '/' {
        return false;
    }
    let mut i: usize = 0;
    while i < n
        invariant
            i <= n == path@.len(),
            n > 0,
            s@ == path@,
            forall|j: int| 0 <= j < i && j < n - 1 ==> !((#[trigger] path@[j]) == '/' && path@[j
                + 1] == '/'),
            forall|j: int| 0 <= j < i ==> (#[trigger] path@[j]) != '\0',
        decreases n - i,
    {
        let c = s.get_char(i);
        if c == '\0' {
            return false;
        }
        if i + 1 < n && c == '/' && s.get_char(i + 1) == '/' {
            return false;
        }
        i = i + 1;
    }
    true
}

/// The governing verdict for one query path within one ignore layer:
/// walks the query's directory scopes from the deepest outward, asking
/// each scope's ignore file in turn, and falls back to the root file.
fn layer_verdict_exec(
    entries: &Vec<FileEntry>,
    name: &String,
    q: &String,
    is_dir: bool,
) -> (r: IgnoreVerdict)
    ensures
        r == layer_verdict(entry_views(entries@), name@, q@, is_dir),
{
    let ghost es = entry_views(entries@);
    let s = q.as_str();
    let n = s.unicode_len();
    let mut e: usize = n;
    while e > 0
        invariant
            e <= n == q@.len(),
            s@ == q@,
            es == entry_views(entries@),
            layer_verdict(es, name@, q@, is_dir) == layer_verdict_from(
                es,
                name@,
                q@,
                is_dir,
                e as int - 1,
            ),
        decreases e,
    {
        let pos = e - 1;
        if pos > 0 && s.get_char(pos) == '/' {
            let prefix = s.substring_char(0, pos);
            let mut file = prefix.to_owned();
            file.append("/");
            file.append(name.as_str());
            proof {
                assert(prefix@ == q@.take(pos as int));
                assert(file@ == q@.take(pos as int) + "/"@ + name@);
            }
            match find_first(entries, &file) {
                None => {
                    proof {
                        assert(scope_verdict(es, name@, q@, is_dir, pos as int)
                            == IgnoreVerdict::NoMatch);
                    }
                },
                Some(idx) => {
                    let rel = s.substring_char(pos + 1, n);
                    proof {
                        assert(rel@ =~= q@.skip(pos + 1));
                    }
                    let v = gitignore_verdict(&entries[idx].data, rel, is_dir);
                    proof {
                        assert(v == scope_verdict(es, name@, q@, is_dir, pos as int));
                    }
                    if v != IgnoreVerdict::NoMatch {
                        return v;
                    }
                },
            }
        }
        e = pos;
    }
    match find_first(entries, name) {
        None => {
            proof {
                assert(scope_verdict(es, name@, q@, is_dir, -1) == IgnoreVerdict::NoMatch);
            }
            IgnoreVerdict::NoMatch
        },
        Some(idx) => {
            let v = gitignore_verdict(&entries[idx].data, q.as_str(), is_dir);
            proof {
                assert(v == scope_verdict(es, name@, q@, is_dir, -1));
            }
            v
        },
    }
}

/// Whether one ignore layer excludes the file path, checking the path
/// itself and every directory above it.
fn layer_excludes_path(entries: &Vec<FileEntry>, name: &String, path: &String) -> (r: bool)
    ensures
        r == layer_excludes(entry_views(entries@), name@, path@),
{
    let ghost es = entry_views(entries@);
    if layer_verdict_exec(entries, name, path, false) == IgnoreVerdict::Ignored {
        return true;
    }
    let s = path.as_str();
    let n = s.unicode_len();
    let mut i: usize = 1;
    while i < n
        invariant
            1 <= i <= n || n == 0,
            n == path@.len(),
            s@ == path@,
            es == entry_views(entries@),
            layer_verdict(es, name@, path@, false) != IgnoreVerdict::Ignored,
            forall|j: int| 0 < j < i ==> !((#[trigger] path@[j]) == '/' && layer_verdict(
                es,
                name@,
                path@.take(j),
                true,
            ) == IgnoreVerdict::Ignored),
        decreases n - i,
    {
        if s.get_char(i) == '/' {
            let prefix = s.substring_char(0, i).to_owned();
            proof {
                assert(prefix@ == path@.take(i as int));
            }
            if layer_verdict_exec(entries, name, &prefix, true) == IgnoreVerdict::Ignored {
                return true;
            }
        }
        i = i + 1;
    }
    false
}

/// The contents of the first entry bearing `name`, when one exists./// The contents of the first entry bearing `name`, when one exists.
pub open spec fn first_file_data(es: Seq<(Seq<char>, Seq<u8>)>, name: Seq<char>) -> Option<Seq<u8>>
    decreases es.len(),
{
    if es.len() == 0 {
        None
    } else if es.first().0 == name {
        Some(es.first().1)
    } else {
        first_file_data(es.drop_first(), name)
    }
}

proof fn lemma_first_file_at(es: Seq<(Seq<char>, Seq<u8>)>, name: Seq<char>, k: int)
    requires
        0 <= k < es.len(),
        es[k].0 == name,
        forall|j: int| 0 <= j < k ==> (#[trigger] es[j]).0 != name,
    ensures
        first_file_data(es, name) == Some(es[k].1),
    decreases es.len(),
{
    if k > 0 {
        let rest = es.drop_first();
        assert(forall|j: int| 0 <= j < rest.len() ==> #[trigger] rest[j] == es[j + 1]);
        assert(es[0].0 != name);
        assert(rest[k - 1].0 == name);
        assert forall|j: int| 0 <= j < k - 1 implies (#[trigger] rest[j]).0 != name by {
            assert(es[j + 1].0 != name);
        }
        lemma_first_file_at(rest, name, k - 1);
    }
}

proof fn lemma_first_file_none(es: Seq<(Seq<char>, Seq<u8>)>, name: Seq<char>)
    requires
        forall|k: int| 0 <= k < es.len() ==> (#[trigger] es[k]).0 != name,
    ensures
        first_file_data(es, name) is None,
    decreases es.len(),
{
    if es.len() > 0 {
        let rest = es.drop_first();
        assert(forall|j: int| 0 <= j < rest.len() ==> #[trigger] rest[j] == es[j + 1]);
        assert forall|k: int| 0 <= k < rest.len() implies (#[trigger] rest[k]).0 != name by {
            assert(es[k + 1].0 != name);
        }
        lemma_first_file_none(rest, name);
    }
}

/// Index of the first entry bearing `name`, when one exists.
fn find_first(entries: &Vec<FileEntry>, name: &String) -> (r: Option<usize>)
    ensures
        match r {
            Some(i) => i < entries@.len() && first_file_data(entry_views(entries@), name@)
                == Some(entries@[i as int].data@),
            None => first_file_data(entry_views(entries@), name@) is None,
        },
{
    let ghost es = entry_views(entries@);
    let mut i: usize = 0;
    while i < entries.len()
        invariant
            i <= entries@.len(),
            es == entry_views(entries@),
            es.len() == entries@.len(),
            forall|j: int| 0 <= j < i ==> (#[trigger] es[j]).0 != name@,
        decreases entries@.len() - i,
    {
        proof {
            assert(es[i as int] == (entries@[i as int].path@, entries@[i as int].data@));
        }
        if entries[i].path == *name {
            proof {
                assert(es[i as int].0 == name@);
                lemma_first_file_at(es, name@, i as int);
            }
            return Some(i);
        }
        i = i + 1;
    }
    proof {
        lemma_first_file_none(es, name@);
    }
    None
}

/// Ceiling on the compressed upload size when the caller overrides
/// nothing: eight gibibytes.
pub const MAX_PROJECT_SIZE: u64 = 8589934592;

/// Why packaging a project failed, before any network traffic.
#[derive(Clone, Debug)]
pub enum PackageError {
    /// No manifest file at the project root.
    MissingManifest,
    /// The manifest is present but not valid JSON; carries the parser's
    /// message.
    InvalidManifest(String),
    /// A surviving entry's path, or the project directory's name, is
    /// one the archive format cannot store as given; carries the path.
    UnstorablePath(String),
    /// The compressed output exceeds the permitted size.
    TooLarge { limit: u64, actual: u64 },
}

impl PackageError {
    /// A human-readable description of the failure.
    pub fn message(&self) -> (r: String)
        ensures
            self matches PackageError::MissingManifest ==> r@
                == "sindri.json not found in project root"@,
            self matches PackageError::InvalidManifest(d) ==> r@
                == "Invalid JSON in sindri.json: "@ + d@,
            self matches PackageError::UnstorablePath(p) ==> r@
                == "project contains a path the archive cannot store: "@ + p@,
            self matches PackageError::TooLarge { .. } ==> r@
                == "project directory exceeds the maximum allowed size; add entries to .sindriignore to exclude files from the upload"@,
    {
        match self {
            PackageError::MissingManifest => "sindri.json not found in project root".to_owned(),
            PackageError::InvalidManifest(d) => {
                let mut m = "Invalid JSON in sindri.json: ".to_owned();
                m.append(d.as_str());
                m
            },
            PackageError::UnstorablePath(p) => {
                let mut m = "project contains a path the archive cannot store: ".to_owned();
                m.append(p.as_str());
                m
            },
            PackageError::TooLarge { .. } => {
                "project directory exceeds the maximum allowed size; add entries to .sindriignore to exclude files from the upload".to_owned()
            },
        }
    }
}

/// The size ceiling in force for a call.
pub open spec fn spec_size_limit(override_max_size: Option<u64>) -> u64 {
    match override_max_size {
        Some(l) => l,
        None => MAX_PROJECT_SIZE,
    }
}

/// Whether the listing has a manifest at the root and it parses.
pub open spec fn manifest_good(es: Seq<(Seq<char>, Seq<u8>)>) -> bool {
    first_file_data(es, "sindri.json"@) matches Some(d) && json_valid(d)
}

/// The entries that reach the archive, from position `i` on: each
/// surviving entry keeps its contents, with its path placed under the
/// project directory's name.
pub open spec fn archive_entries(
    dir: Seq<char>,
    es: Seq<(Seq<char>, Seq<u8>)>,
    i: int,
) -> Seq<(Seq<char>, Seq<u8>)>
    decreases es.len() - i,
{
    if 0 <= i < es.len() {
        let rest = archive_entries(dir, es, i + 1);
        if spec_excluded(es, es[i].0) {
            rest
        } else {
            seq![(dir + "/"@ + es[i].0, es[i].1)] + rest
        }
    } else {
        Seq::empty()
    }
}

/// Whether `h` is a surviving entry of `es`, placed under `dir`.
pub open spec fn is_surviving_entry(
    dir: Seq<char>,
    es: Seq<(Seq<char>, Seq<u8>)>,
    h: (Seq<char>, Seq<u8>),
) -> bool {
    exists|j: int| 0 <= j < es.len() && !spec_excluded(es, (#[trigger] es[j]).0) && h == (
    dir + "/"@ + es[j].0,
    es[j].1,
    )
}

/// Ignore-layer law: everything in the archived listing is a surviving
/// input entry (so no hidden path and nothing either ignore layer
/// matches is ever archived), and every surviving input entry is
/// archived.
pub proof fn lemma_archive_entries(dir: Seq<char>, es: Seq<(Seq<char>, Seq<u8>)>)
    ensures
        forall|k: int| 0 <= k < archive_entries(dir, es, 0).len() ==> is_surviving_entry(
            dir,
            es,
            #[trigger] archive_entries(dir, es, 0)[k],
        ),
        forall|j: int| 0 <= j < es.len() && !spec_excluded(es, (#[trigger] es[j]).0)
            ==> archive_entries(dir, es, 0).contains((dir + "/"@ + es[j].0, es[j].1)),
{
    lemma_archive_entries_from(dir, es, 0);
}

proof fn lemma_archive_entries_from(dir: Seq<char>, es: Seq<(Seq<char>, Seq<u8>)>, i: int)
    requires
        0 <= i,
    ensures
        forall|k: int| 0 <= k < archive_entries(dir, es, i).len() ==> is_surviving_entry(
            dir,
            es,
            #[trigger] archive_entries(dir, es, i)[k],
        ),
        forall|j: int| i <= j < es.len() && !spec_excluded(es, (#[trigger] es[j]).0)
            ==> archive_entries(dir, es, i).contains((dir + "/"@ + es[j].0, es[j].1)),
    decreases es.len() - i,
{
    if 0 <= i < es.len() {
        lemma_archive_entries_from(dir, es, i + 1);
        let out = archive_entries(dir, es, i);
        let rest = archive_entries(dir, es, i + 1);
        if spec_excluded(es, es[i].0) {
            assert(out == rest);
            assert forall|k: int| 0 <= k < out.len() implies is_surviving_entry(
                dir,
                es,
                #[trigger] out[k],
            ) by {
                assert(rest[k] == out[k]);
            }
        } else {
            assert forall|k: int| 0 <= k < out.len() implies is_surviving_entry(
                dir,
                es,
                #[trigger] out[k],
            ) by {
                if k == 0 {
                    assert(out[0] == (dir + "/"@ + es[i].0, es[i].1));
                } else {
                    assert(out[k] == rest[k - 1]);
                }
            }
            assert forall|j: int|
                i <= j < es.len() && !spec_excluded(es, (#[trigger] es[j]).0) implies out.contains(
                (dir + "/"@ + es[j].0, es[j].1),
            ) by {
                if j == i {
                    assert(out[0] == (dir + "/"@ + es[j].0, es[j].1));
                } else {
                    let h = (dir + "/"@ + es[j].0, es[j].1);
                    assert(rest.contains(h));
                    let k = choose|k: int| 0 <= k < rest.len() && rest[k] == h;
                    assert(out[k + 1] == h);
                }
            }
        }
    }
}

proof fn lemma_prefixed_path_storable(dir: Seq<char>, p: Seq<char>)
    requires
        clean_component_path(dir),
        !is_hidden_path(dir),
        clean_component_path(p),
        !is_hidden_path(p),
    ensures
        clean_component_path(dir + "/"@ + p),
        !is_hidden_path(dir + "/"@ + p),
{
    reveal_strlit("/");
    let q = dir + "/"@ + p;
    assert(q.len() == dir.len() + 1 + p.len());
    assert(q[0] == dir[0]);
    assert(q[q.len() - 1] == p[p.len() - 1]);
    assert forall|i: int| 0 <= i < q.len() - 1 implies !((#[trigger] q[i]) == '/' && q[i + 1]
        == '/') by {
        if i < dir.len() - 1 {
            assert(q[i] == dir[i] && q[i + 1] == dir[i + 1]);
        } else if i == dir.len() - 1 {
            assert(q[i] == dir[dir.len() - 1]);
        } else if i == dir.len() {
            assert(q[i + 1] == p[0]);
        } else {
            assert(q[i] == p[i - dir.len() - 1] && q[i + 1] == p[i - dir.len()]);
        }
    }
    assert forall|i: int| 0 <= i < q.len() implies (#[trigger] q[i]) != '\0' by {
        if i < dir.len() {
            assert(q[i] == dir[i]);
        } else if i == dir.len() {
            assert(q[i] == '/');
        } else {
            assert(q[i] == p[i - dir.len() - 1]);
        }
    }
    assert forall|i: int| 0 <= i < q.len() implies !((#[trigger] q[i]) == '.' && (i == 0 || q[i
        - 1] == '/')) by {
        if i < dir.len() {
            if q[i] == '.' && (i == 0 || q[i - 1] == '/') {
                assert(dir[i] == '.' && (i == 0 || dir[i - 1] == '/'));
                assert(is_hidden_path(dir));
            }
        } else if i == dir.len() {
            assert(q[i] == '/');
        } else {
            let j = i - dir.len() - 1;
            if q[i] == '.' && q[i - 1] == '/' {
                if j == 0 {
                    assert(p[0] == '.');
                    assert(is_hidden_path(p));
                } else {
                    assert(p[j] == '.' && p[j - 1] == '/');
                    assert(is_hidden_path(p));
                }
            }
        }
    }
}

/// Every path the archive would store is one the archive format stores
/// as given: the project directory's name is clean and not hidden, and
/// every surviving entry's path is clean (survivors are never hidden).
pub open spec fn all_paths_storable(dir: Seq<char>, es: Seq<(Seq<char>, Seq<u8>)>) -> bool {
    &&& clean_component_path(dir)
    &&& !is_hidden_path(dir)
    &&& forall|j: int| 0 <= j < es.len() && !spec_excluded(es, (#[trigger] es[j]).0)
        ==> clean_component_path(es[j].0)
}

/// Packages a project listing into upload-ready bytes: requires a valid
/// JSON manifest named `sindri.json` at the root, drops hidden paths
/// and everything the `.gitignore` or `.sindriignore` layers exclude,
/// stores the survivors under the project directory's name in a tar
/// archive, compresses it, and enforces the size ceiling — all before
/// any network traffic.
///
/// The contract fixes each failure to its cause, if and only if: the
/// missing-manifest and invalid-manifest errors to exactly their
/// conditions; the unstorable-path error to exactly a project whose
/// directory name or surviving paths the archive format cannot store;
/// and beyond those gates the outcome is decided by size alone — the
/// too-large error exactly when the compressed output is over the
/// ceiling, else success with exactly the compressed archive of the
/// surviving entries, nonempty and within the ceiling.
pub fn compress_directory(
    dir_name: &String,
    entries: &Vec<FileEntry>,
    override_max_size: Option<u64>,
) -> (r: Result<Vec<u8>, PackageError>)
    ensures
        ({
            let es = entry_views(entries@);
            let limit = spec_size_limit(override_max_size);
            let packed = gzip_of(tar_of(archive_entries(dir_name@, es, 0)));
            &&& (r matches Err(PackageError::MissingManifest) <==> first_file_data(
                es,
                "sindri.json"@,
            ) is None)
            &&& (r matches Err(PackageError::InvalidManifest(m)) <==> (first_file_data(
                es,
                "sindri.json"@,
            ) matches Some(d) && !json_valid(d)))
            &&& (r matches Err(PackageError::UnstorablePath(p)) <==> manifest_good(es)
                && !all_paths_storable(dir_name@, es))
            &&& (r matches Err(PackageError::TooLarge { limit: l, actual: a }) <==> manifest_good(
                es,
            ) && all_paths_storable(dir_name@, es) && packed.len() > limit)
            &&& (r matches Err(PackageError::TooLarge { limit: l, actual: a }) ==> l == limit
                && a == packed.len())
            &&& (r matches Ok(v) <==> manifest_good(es) && all_paths_storable(dir_name@, es)
                && packed.len() <= limit)
            &&& (r matches Ok(v) ==> v@ == packed && v@.len() <= limit && v@.len() > 0)
        }),
{
    let ghost es = entry_views(entries@);
    let manifest_name: String = "sindri.json".to_owned();
    let manifest_idx = match find_first(entries, &manifest_name) {
        None => {
            return Err(PackageError::MissingManifest);
        },
        Some(i) => i,
    };
    if let Some(parse_error) = json_check(&entries[manifest_idx].data) {
        return Err(PackageError::InvalidManifest(parse_error));
    }
    let git_name: String = ".gitignore".to_owned();
    let project_name: String = ".sindriignore".to_owned();

    if !(path_is_clean(dir_name) && !path_is_hidden(dir_name)) {
        return Err(PackageError::UnstorablePath(dir_name.clone()));
    }

    let mut picked: Vec<FileEntry> = Vec::new();
    let mut i: usize = 0;
    while i < entries.len()
        invariant
            i <= entries@.len(),
            es == entry_views(entries@),
            es.len() == entries@.len(),
            manifest_good(es),
            git_name@ == ".gitignore"@,
            project_name@ == ".sindriignore"@,
            clean_component_path(dir_name@),
            !is_hidden_path(dir_name@),
            forall|j: int| 0 <= j < i && !spec_excluded(es, (#[trigger] es[j]).0)
                ==> clean_component_path(es[j].0),
            entry_views(picked@) + archive_entries(dir_name@, es, i as int) == archive_entries(
                dir_name@,
                es,
                0,
            ),
            forall|k: int| 0 <= k < picked@.len() ==> clean_component_path(
                (#[trigger] picked@[k]).path@,
            ) && !is_hidden_path(picked@[k].path@),
        decreases entries@.len() - i,
    {
        let ghost picked0 = picked@;
        proof {
            assert(es[i as int] == (entries@[i as int].path@, entries@[i as int].data@));
        }
        let excluded = path_is_hidden(&entries[i].path) || layer_excludes_path(
            entries,
            &git_name,
            &entries[i].path,
        ) || layer_excludes_path(entries, &project_name, &entries[i].path);
        proof {
            assert(excluded == spec_excluded(es, es[i as int].0));
        }
        if !excluded {
            if !path_is_clean(&entries[i].path) {
                proof {
                    assert(!clean_component_path(es[i as int].0));
                    assert(!all_paths_storable(dir_name@, es));
                }
                return Err(PackageError::UnstorablePath(entries[i].path.clone()));
            }
            let mut prefixed = dir_name.clone();
            prefixed.append("/");
            prefixed.append(entries[i].path.as_str());
            let data = entries[i].data.clone();
            proof {
                assert forall|t: int| 0 <= t < data@.len() implies data@[t] == entries@[
                    i as int
                ].data@[t] by {
                    assert(vstd::pervasive::cloned::<u8>(entries@[i as int].data@[t], data@[t]));
                }
                assert(data@ =~= entries@[i as int].data@);
            }
            proof {
                assert(prefixed@ == dir_name@ + "/"@ + es[i as int].0);
                lemma_prefixed_path_storable(dir_name@, es[i as int].0);
            }
            picked.push(FileEntry { path: prefixed, data });
            proof {
                assert(entry_views(picked@) =~= entry_views(picked0).push(
                    (dir_name@ + "/"@ + es[i as int].0, es[i as int].1),
                ));
                assert(archive_entries(dir_name@, es, i as int) == seq![
                    (dir_name@ + "/"@ + es[i as int].0, es[i as int].1),
                ] + archive_entries(dir_name@, es, i + 1));
                assert(entry_views(picked@) + archive_entries(dir_name@, es, i + 1)
                    =~= entry_views(picked0) + archive_entries(dir_name@, es, i as int));
            }
        } else {
            proof {
                assert(archive_entries(dir_name@, es, i as int) == archive_entries(
                    dir_name@,
                    es,
                    i + 1,
                ));
            }
        }
        i = i + 1;
    }
    proof {
        assert(entry_views(picked@) + archive_entries(dir_name@, es, es.len() as int)
            =~= entry_views(picked@));
        assert(all_paths_storable(dir_name@, es));
    }
    let archive = tar_archive(&picked);
    let packed = gzip_compress(&archive);
    let limit: u64 = match override_max_size {
        Some(l) => l,
        None => MAX_PROJECT_SIZE,
    };
    let actual: u64 = packed.len() as u64;
    if actual > limit {
        return Err(PackageError::TooLarge { limit, actual });
    }
    Ok(packed)
}

} // verus!