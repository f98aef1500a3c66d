//! File synchronisation: the configuration, the outcome of syncing a file,
//! and how a Markdown file's path and text give a document's slug, title
//! and front matter.
//!
//! Paths are `/`-separated text.  Their components are the non-empty
//! pieces between separators other than `.`; `..` is a parent reference,
//! every other component a name.

use vstd::prelude::*;
use vstd::utf8::{encode_utf8, is_char_boundary};
use crate::crypto::new_uuid_v4_string;
use crate::text::{
    chars_eq, chars_of, eq_str, find_seq, is_alphanumeric, is_whitespace, lowercase,
    lowercase_chars, occurs_at, owned, push_str, slice_range, starts_with, starts_with_exec,
    strip_char_both, strip_char_both_chars, string_from_chars, trim_chars, trim_start,
    trim_start_chars, trimmed, unicode_alphanumeric, unicode_whitespace, contains_seq,
};
use crate::validation::search::{split_pieces, UtcTimestamp};

verus! {

broadcast use vstd::string::group_string_axioms;

/// What syncing one file did.
#[derive(Debug)]
pub enum SyncResult {
    Created { id: String, slug: String },
    Updated { id: String, slug: String, hash_changed: bool, conflict: bool },
    Deleted { id: String, slug: String },
    Skipped { path: String, reason: String },
    Error { path: String, message: String },
}

/// How synced documents are created.
#[derive(Debug, Clone)]
pub struct SyncConfig {
    pub default_author_id: String,
    pub default_visibility: String,
    pub render_html: bool,
    pub update_search_index: bool,
}

impl Default for SyncConfig {
    /// Private documents, rendered and indexed, owned by a fresh random
    /// author identifier.
    fn default() -> (r: Self)
        ensures
            r.default_author_id@.len() == 36,
            r.default_visibility@ == "private"@,
            r.render_html,
            r.update_search_index,
    {
        SyncConfig {
            default_author_id: new_uuid_v4_string(),
            default_visibility: owned("private"),
            render_html: true,
            update_search_index: true,
        }
    }
}

// ---------------------------------------------------------------------------
// Paths
// ---------------------------------------------------------------------------

/// The components of a path, as `Path::components` yields them apart from
/// the root: pieces between `/` that are neither empty nor `.`.
pub open spec fn components_of(pieces: Seq<Seq<char>>) -> Seq<Seq<char>>
    decreases pieces.len(),
{
    if pieces.len() == 0 {
        Seq::empty()
    } else {
        let prev = components_of(pieces.drop_last());
        let p = pieces.last();
        if p.len() == 0 || p == "."@ {
            prev
        } else {
            prev.push(p)
        }
    }
}

pub open spec fn path_components(path: Seq<char>) -> Seq<Seq<char>> {
    components_of(split_pieces(path, '/'))
}

/// The last `.` of a name, if it is not the first character.
pub open spec fn extension_dot(name: Seq<char>) -> Option<int> {
    if exists|i: int| 0 < i < name.len() && name[i] == '.' {
        Some(choose|i: int| 0 < i < name.len() && name[i] == '.' && forall|j: int| i < j < name.len() ==> name[j] != '.')
    } else {
        None
    }
}

/// The final name of a path, unless it ends in `..` or has no component.
pub open spec fn file_name(path: Seq<char>) -> Option<Seq<char>> {
    let c = path_components(path);
    if c.len() == 0 || c.last() == ".."@ {
        None
    } else {
        Some(c.last())
    }
}

/// A name without its extension.
pub open spec fn stem_of(name: Seq<char>) -> Seq<char> {
    match extension_dot(name) {
        Some(i) => name.take(i),
        None => name,
    }
}

/// A name's extension.
pub open spec fn extension_of(name: Seq<char>) -> Option<Seq<char>> {
    match extension_dot(name) {
        Some(i) => Some(name.skip(i + 1)),
        None => None,
    }
}

/// The characters of each vector.
pub open spec fn char_vecs(v: Seq<Vec<char>>) -> Seq<Seq<char>> {
    v.map_values(|x: Vec<char>| x@)
}

/// `s` split at every occurrence of `sep`.
fn split_chars(s: &[char], sep: char) -> (r: Vec<Vec<char>>)
    ensures
        char_vecs(r@) == split_pieces(s@, sep),
{
    let mut out: Vec<Vec<char>> = Vec::new();
    let mut cur: Vec<char> = Vec::new();
    let mut i: usize = 0;
    assert(s@.take(0) =~= Seq::<char>::empty());
    assert(split_pieces(Seq::<char>::empty(), sep) =~= char_vecs(out@).push(cur@));
    while i < s.len()
        invariant
            i <= s@.len(),
            split_pieces(s@.take(i as int), sep) == char_vecs(out@).push(cur@),
        decreases s@.len() - i,
    {
        let c = s[i];
        assert(s@.take(i as int + 1).drop_last() =~= s@.take(i as int));
        if c == sep {
            let ghost before = char_vecs(out@);
            let piece = cur;
            out.push(piece);
            cur = Vec::new();
            assert(char_vecs(out@) =~= before.push(piece@));
            assert(split_pieces(s@.take(i as int + 1), sep) =~= char_vecs(out@).push(cur@));
        } else {
            let ghost old_cur = cur@;
            cur.push(c);
            assert(split_pieces(s@.take(i as int + 1), sep) =~= char_vecs(out@).push(cur@)) by {
                let prev = char_vecs(out@).push(old_cur);
                assert(prev.update(prev.len() - 1, old_cur.push(c)) =~= char_vecs(out@).push(cur@));
            }
        }
        i = i + 1;
    }
    assert(s@.take(s@.len() as int) =~= s@);
    let ghost before = char_vecs(out@);
    out.push(cur);
    assert(char_vecs(out@) =~= before.push(cur@));
    out
}

/// The components of a path.
fn components(path: &str) -> (r: Vec<Vec<char>>)
    ensures
        char_vecs(r@) == path_components(path@),
{
    let chars = chars_of(path);
    let pieces = split_chars(chars.as_slice(), '/');
    let ghost all = char_vecs(pieces@);
    let mut out: Vec<Vec<char>> = Vec::new();
    let mut i: usize = 0;
    assert(all.take(0) =~= Seq::<Seq<char>>::empty());
    while i < pieces.len()
        invariant
            i <= pieces@.len(),
            all == char_vecs(pieces@),
            all == split_pieces(path@, '/'),
            char_vecs(out@) == components_of(all.take(i as int)),
        decreases pieces@.len() - i,
    {
        assert(all.take(i as int + 1).drop_last() =~= all.take(i as int));
        let p = &pieces[i];
        assert(p@ == all[i as int]);
        if !(p.len() == 0 || eq_str(p.as_slice(), ".")) {
            let ghost before = char_vecs(out@);
            out.push(slice_range(p.as_slice(), 0, p.len()));
            assert(p@.subrange(0, p@.len() as int) =~= p@);
            assert(char_vecs(out@) =~= before.push(p@));
        }
        i = i + 1;
    }
    assert(all.take(all.len() as int) =~= all);
    out
}

/// The position of the last `.` of a name, if it is not the first character.
fn extension_dot_exec(name: &[char]) -> (r: Option<usize>)
    ensures
        r matches Some(i) ==> 0 < i < name@.len() && name@[i as int] == '.',
        match r {
            Some(i) => extension_dot(name@) == Some(i as int),
            None => extension_dot(name@) is None,
        },
{
    let mut k: usize = name.len();
    while k > 1
        invariant
            k <= name@.len(),
            forall|j: int| k <= j < name@.len() ==> name@[j] != '.',
        decreases k,
    {
        if name[k - 1] == '.' {
            let i = k - 1;
            proof {
                let c = choose|c: int| 0 < c < name@.len() && name@[c] == '.' && forall|j: int| c < j < name@.len() ==> name@[j] != '.';
                assert(0 < i as int && name@[i as int] == '.');
                if c != i as int {
                    if c < i {
                        assert(name@[i as int] != '.');
                    } else {
                        assert(name@[c] != '.');
                    }
                }
            }
            return Some(i);
        }
        k = k - 1;
    }
    None
}

/// Whether the path names a Markdown file: its extension is `md` or
/// `markdown`.
pub open spec fn markdown_path(path: Seq<char>) -> bool {
    match file_name(path) {
        Some(name) => extension_of(name) == Some("md"@) || extension_of(name) == Some(
            "markdown"@,
        ),
        None => false,
    }
}

/// The final name of a path.
fn file_name_exec(path: &str) -> (r: Option<Vec<char>>)
    ensures
        match r {
            Some(n) => file_name(path@) == Some(n@),
            None => file_name(path@) is None,
        },
{
    let comps = components(path);
    if comps.len() == 0 {
        return None;
    }
    let last = &comps[comps.len() - 1];
    assert(last@ == char_vecs(comps@).last());
    if eq_str(last.as_slice(), "..") {
        return None;
    }
    Some(slice_range(last.as_slice(), 0, last.len()))
}

pub fn is_markdown_file(path: &str) -> (r: bool)
    ensures
        r == markdown_path(path@),
{
    let name = match file_name_exec(path) {
        Some(n) => n,
        None => {
            return false;
        },
    };
    match extension_dot_exec(name.as_slice()) {
        Some(i) => {
            assert(i < name.len());
            let ext = slice_range(name.as_slice(), i + 1, name.len());
            assert(ext@ =~= name@.skip(i + 1));
            eq_str(ext.as_slice(), "md") || eq_str(ext.as_slice(), "markdown")
        },
        None => false,
    }
}

// ---------------------------------------------------------------------------
// Slugs
// ---------------------------------------------------------------------------

/// The directory names of a path (skipping hidden ones and parent
/// references) followed by the file's stem.
pub open spec fn slug_parts(path: Seq<char>) -> Seq<Seq<char>> {
    let c = path_components(path);
    let dirs = if c.len() == 0 {
        Seq::empty()
    } else {
        visible_dirs(c.drop_last())
    };
    match file_name(path) {
        Some(name) => dirs.push(stem_of(name)),
        None => dirs,
    }
}

/// Directory names other than parent references, empty names and names
/// starting with `.`.
pub open spec fn visible_dirs(c: Seq<Seq<char>>) -> Seq<Seq<char>>
    decreases c.len(),
{
    if c.len() == 0 {
        Seq::empty()
    } else {
        let prev = visible_dirs(c.drop_last());
        let d = c.last();
        if d == ".."@ || d.len() == 0 || d[0] == '.' {
            prev
        } else {
            prev.push(d)
        }
    }
}

/// The parts joined with single spaces.
pub open spec fn join_spaced(parts: Seq<Seq<char>>) -> Seq<char>
    decreases parts.len(),
{
    if parts.len() == 0 {
        Seq::empty()
    } else if parts.len() == 1 {
        parts[0]
    } else {
        join_spaced(parts.drop_last()) + seq![' '] + parts.last()
    }
}

/// Letters and digits kept, whitespace, `-` and `_` turned into `-`,
/// everything else dropped.
pub open spec fn slug_chars(s: Seq<char>) -> Seq<char>
    decreases s.len(),
{
    if s.len() == 0 {
        s
    } else {
        let prev = slug_chars(s.drop_last());
        let c = s.last();
        if unicode_alphanumeric(c) {
            prev.push(c)
        } else if unicode_whitespace(c) || c == '-' || c == '_' {
            prev.push('-')
        } else {
            prev
        }
    }
}

/// Every run of `-` replaced by a single `-`.
pub open spec fn collapse_dashes(s: Seq<char>) -> Seq<char>
    decreases s.len(),
{
    if s.len() == 0 {
        s
    } else {
        let prev = collapse_dashes(s.drop_last());
        if s.last() == '-' && prev.len() > 0 && prev.last() == '-' {
            prev
        } else {
            prev.push(s.last())
        }
    }
}

/// The slug text before it is cut to 200 bytes.
pub open spec fn full_slug(path: Seq<char>) -> Seq<char> {
    strip_char_both(collapse_dashes(slug_chars(lowercase(join_spaced(slug_parts(path))))), '-')
}

/// The slug can be cut: when it is longer than 200 bytes, byte 200 starts
/// a character (and its length fits in memory).
pub open spec fn slug_cuttable(path: Seq<char>) -> bool {
    let b = encode_utf8(full_slug(path));
    &&& b.len() <= usize::MAX
    &&& b.len() > 200 ==> is_char_boundary(b, 200)
}

fn join_with_spaces(parts: &Vec<Vec<char>>) -> (r: Vec<char>)
    ensures
        r@ == join_spaced(char_vecs(parts@)),
{
    let ghost all = char_vecs(parts@);
    let mut out: Vec<char> = Vec::new();
    let mut i: usize = 0;
    assert(all.take(0) =~= Seq::<Seq<char>>::empty());
    while i < parts.len()
        invariant
            i <= parts@.len(),
            all == char_vecs(parts@),
            out@ == join_spaced(all.take(i as int)),
        decreases parts@.len() - i,
    {
        assert(all.take(i as int + 1).drop_last() =~= all.take(i as int));
        let p = &parts[i];
        assert(p@ == all[i as int]);
        if i > 0 {
            out.push(' ');
        }
        let mut k: usize = 0;
        let ghost start = out@;
        while k < p.len()
            invariant
                k <= p@.len(),
                out@ == start + p@.take(k as int),
            decreases p@.len() - k,
        {
            out.push(p[k]);
            assert(p@.take(k as int + 1) =~= p@.take(k as int).push(p@[k as int]));
            k = k + 1;
        }
        assert(p@.take(p@.len() as int) =~= p@);
        proof {
            if i == 0 {
                assert(all.take(1) =~= seq![p@]);
                assert(out@ =~= p@);
            } else {
                assert(out@ =~= join_spaced(all.take(i as int)) + seq![' '] + p@);
            }
        }
        i = i + 1;
    }
    assert(all.take(all.len() as int) =~= all);
    out
}

fn map_slug_chars(s: &[char]) -> (r: Vec<char>)
    ensures
        r@ == slug_chars(s@),
{
    let mut out: Vec<char> = Vec::new();
    let mut i: usize = 0;
    while i < s.len()
        invariant
            i <= s@.len(),
            out@ == slug_chars(s@.take(i as int)),
        decreases s@.len() - i,
    {
        let c = s[i];
        assert(s@.take(i as int + 1).drop_last() =~= s@.take(i as int));
        if is_alphanumeric(c) {
            out.push(c);
        } else if is_whitespace(c) || c == '-' || c == '_' {
            out.push('-');
        }
        i = i + 1;
    }
    assert(s@.take(s@.len() as int) =~= s@);
    out
}

fn collapse_dash_runs(s: &[char]) -> (r: Vec<char>)
    ensures
        r@ == collapse_dashes(s@),
{
    let mut out: Vec<char> = Vec::new();
    let mut i: usize = 0;
    while i < s.len()
        invariant
            i <= s@.len(),
            out@ == collapse_dashes(s@.take(i as int)),
        decreases s@.len() - i,
    {
        let c = s[i];
        assert(s@.take(i as int + 1).drop_last() =~= s@.take(i as int));
        if !(c == '-' && out.len() > 0 && out[out.len() - 1] == '-') {
            out.push(c);
        }
        i = i + 1;
    }
    assert(s@.take(s@.len() as int) =~= s@);
    out
}

/// The visible directory names among all components but the last.
fn visible_dirs_exec(comps: &Vec<Vec<char>>) -> (r: Vec<Vec<char>>)
    requires
        comps@.len() > 0,
    ensures
        char_vecs(r@) == visible_dirs(char_vecs(comps@).drop_last()),
{
    let ghost c = char_vecs(comps@);
    let ghost dirs = c.drop_last();
    let mut parts: Vec<Vec<char>> = Vec::new();
    let mut i: usize = 0;
    assert(dirs.take(0) =~= Seq::<Seq<char>>::empty());
    while i < comps.len() - 1
        invariant
            comps@.len() > 0,
            i + 1 <= comps@.len(),
            c == char_vecs(comps@),
            dirs == c.drop_last(),
            char_vecs(parts@) == visible_dirs(dirs.take(i as int)),
        decreases comps@.len() - i,
    {
        assert(dirs.take(i as int + 1).drop_last() =~= dirs.take(i as int));
        let d = &comps[i];
        assert(d@ == dirs[i as int]);
        if !(eq_str(d.as_slice(), "..") || d.len() == 0 || d[0] == '.') {
            let ghost before = char_vecs(parts@);
            parts.push(slice_range(d.as_slice(), 0, d.len()));
            assert(d@.subrange(0, d@.len() as int) =~= d@);
            assert(char_vecs(parts@) =~= before.push(d@));
        }
        i = i + 1;
    }
    assert(dirs.take(dirs.len() as int) =~= dirs);
    parts
}

/// The stem of a file name.
fn stem_exec(name: Vec<char>) -> (r: Vec<char>)
    ensures
        r@ == stem_of(name@),
{
    match extension_dot_exec(name.as_slice()) {
        Some(i) => slice_range(name.as_slice(), 0, i),
        None => name,
    }
}

/// The parts a slug is made from.
fn slug_parts_exec(path: &str) -> (r: Vec<Vec<char>>)
    ensures
        char_vecs(r@) == slug_parts(path@),
{
    let comps = components(path);
    let mut parts = if comps.len() > 0 {
        visible_dirs_exec(&comps)
    } else {
        let p: Vec<Vec<char>> = Vec::new();
        assert(char_vecs(p@) =~= Seq::<Seq<char>>::empty());
        p
    };
    match file_name_exec(path) {
        Some(name) => {
            let stem = stem_exec(name);
            let ghost before = char_vecs(parts@);
            parts.push(stem);
            assert(char_vecs(parts@) =~= before.push(stem@));
        },
        None => {},
    }
    parts
}

/// The slug of a document stored at `path`: its directory names and stem,
/// lowercased, with separators turned into single `-`, trimmed of `-`, and
/// cut to 200 bytes.
pub fn derive_slug_from_path(path: &str) -> (r: String)
    requires
        slug_cuttable(path@),
    ensures
        ({
            let full = encode_utf8(full_slug(path@));
            encode_utf8(r@) == if full.len() > 200 {
                full.subrange(0, 200)
            } else {
                full
            }
        }),
{
    let parts = slug_parts_exec(path);
    let joined = join_with_spaces(&parts);
    let lower = lowercase_chars(joined.as_slice());
    let mapped = map_slug_chars(lower.as_slice());
    let collapsed = collapse_dash_runs(mapped.as_slice());
    let stripped = strip_char_both_chars(collapsed.as_slice(), '-');
    let slug = string_from_chars(stripped.as_slice());
    assert(slug@ == full_slug(path@));
    if slug.as_str().len() > 200 {
        let (head, _tail) = slug.as_str().split_at(200);
        owned(head)
    } else {
        slug
    }
}

// ---------------------------------------------------------------------------
// Titles
// ---------------------------------------------------------------------------

/// What `char::to_uppercase` yields for a character.
pub uninterp spec fn upper_chars(c: char) -> Seq<char>;

/// Calls `char::to_uppercase` and collects what it yields; the result is
/// named by `upper_chars`.
#[verifier::external_body]
fn to_uppercase_chars(c: char) -> (r: Vec<char>)
    ensures
        r@ == upper_chars(c),
{
    c.to_uppercase().collect()
}

/// `-` and `_` as word separators, turned into `-`.
pub open spec fn unify_separators(s: Seq<char>) -> Seq<char> {
    s.map_values(|c: char| if c == '_' { '-' } else { c })
}

/// The non-empty pieces, each with its first character uppercased.
pub open spec fn title_words(pieces: Seq<Seq<char>>) -> Seq<Seq<char>>
    decreases pieces.len(),
{
    if pieces.len() == 0 {
        Seq::empty()
    } else {
        let prev = title_words(pieces.drop_last());
        let w = pieces.last();
        if w.len() == 0 {
            prev
        } else {
            prev.push(upper_chars(w[0]) + w.drop_first())
        }
    }
}

/// The title of a document stored at `path`: the words of its stem (or of
/// `Untitled`), separated by `-` or `_`, capitalised and joined with spaces.
pub open spec fn path_title(path: Seq<char>) -> Seq<char> {
    let stem = match file_name(path) {
        Some(name) => stem_of(name),
        None => "Untitled"@,
    };
    join_spaced(title_words(split_pieces(unify_separators(stem), '-')))
}

pub fn derive_title_from_path(path: &str) -> (r: String)
    ensures
        r@ == path_title(path@),
{
    let stem: Vec<char> = match file_name_exec(path) {
        Some(name) => stem_exec(name),
        None => {
            let u = chars_of("Untitled");
            u
        },
    };
    let mut unified: Vec<char> = Vec::new();
    let mut i: usize = 0;
    while i < stem.len()
        invariant
            i <= stem@.len(),
            unified@ == unify_separators(stem@.take(i as int)),
        decreases stem@.len() - i,
    {
        let c = stem[i];
        unified.push(if c == '_' { '-' } else { c });
        assert(unify_separators(stem@.take(i as int + 1)) =~= unify_separators(
            stem@.take(i as int),
        ).push(if c == '_' { '-' } else { c }));
        i = i + 1;
    }
    assert(stem@.take(stem@.len() as int) =~= stem@);
    let pieces = split_chars(unified.as_slice(), '-');
    let ghost all = char_vecs(pieces@);
    let mut words: Vec<Vec<char>> = Vec::new();
    let mut k: usize = 0;
    assert(all.take(0) =~= Seq::<Seq<char>>::empty());
    while k < pieces.len()
        invariant
            k <= pieces@.len(),
            all == char_vecs(pieces@),
            char_vecs(words@) == title_words(all.take(k as int)),
        decreases pieces@.len() - k,
    {
        assert(all.take(k as int + 1).drop_last() =~= all.take(k as int));
        let w = &pieces[k];
        assert(w@ == all[k as int]);
        if w.len() > 0 {
            let mut word = to_uppercase_chars(w[0]);
            let ghost head = word@;
            let mut j: usize = 1;
            while j < w.len()
                invariant
                    1 <= j <= w@.len(),
                    word@ == head + w@.subrange(1, j as int),
                decreases w@.len() - j,
            {
                word.push(w[j]);
                assert(w@.subrange(1, j as int + 1) =~= w@.subrange(1, j as int).push(w@[j as int]));
                j = j + 1;
            }
            assert(w@.subrange(1, w@.len() as int) =~= w@.drop_first());
            let ghost before = char_vecs(words@);
            words.push(word);
            assert(char_vecs(words@) =~= before.push(word@));
        }
        k = k + 1;
    }
    assert(all.take(all.len() as int) =~= all);
    let joined = join_with_spaces(&words);
    string_from_chars(joined.as_slice())
}

// ---------------------------------------------------------------------------
// Front matter
// ---------------------------------------------------------------------------

/// The front matter and body of a document's text: text that starts with
/// `---` and has a later line starting with `---` holds front matter up to
/// that line (trimmed), and the body is what follows the closing `---`,
/// without leading whitespace; any other text is all body.
pub open spec fn frontmatter_split(content: Seq<char>) -> (Option<Seq<char>>, Seq<char>) {
    if !starts_with(content, "---"@) {
        (None, content)
    } else {
        let rest = content.skip(3);
        if contains_seq(rest, "\n---"@) {
            let p = choose|p: int| occurs_at(rest, "\n---"@, p) && forall|q: int| 0 <= q < p ==> !occurs_at(rest, "\n---"@, q);
            (Some(trimmed(rest.take(p))), trim_start(rest.skip(p + 4)))
        } else {
            (None, content)
        }
    }
}

pub fn derive_frontmatter(content: &str) -> (r: (Option<String>, String))
    ensures
        (match r.0 {
            Some(f) => Some(f@),
            None => None,
        }, r.1@) == frontmatter_split(content@),
{
    proof {
        reveal_strlit("---");
        reveal_strlit("\n---");
    }
    let c = chars_of(content);
    let open = chars_of("---");
    if !starts_with_exec(c.as_slice(), open.as_slice()) {
        return (None, owned(content));
    }
    let rest = slice_range(c.as_slice(), 3, c.len());
    assert(rest@ =~= c@.skip(3));
    let close = chars_of("\n---");
    match find_seq(rest.as_slice(), close.as_slice()) {
        Some(p) => {
            proof {
                let q = choose|q: int| occurs_at(rest@, "\n---"@, q) && forall|r: int| 0 <= r < q ==> !occurs_at(rest@, "\n---"@, r);
                assert(occurs_at(rest@, "\n---"@, p as int));
                if q < p {
                } else if q > p {
                }
                assert(q == p as int);
            }
            let head = slice_range(rest.as_slice(), 0, p);
            let fm = trim_chars(head.as_slice());
            let tail = slice_range(rest.as_slice(), p + 4, rest.len());
            let body = trim_start_chars(tail.as_slice());
            assert(head@ =~= rest@.take(p as int));
            assert(tail@ =~= rest@.skip(p + 4));
            (Some(string_from_chars(fm.as_slice())), string_from_chars(body.as_slice()))
        },
        None => (None, owned(content)),
    }
}

// ---------------------------------------------------------------------------
// What a file change does to its document
// ---------------------------------------------------------------------------

/// The instant `a` comes after the instant `b`.
pub open spec fn later_than(a: UtcTimestamp, b: UtcTimestamp) -> bool {
    a.seconds > b.seconds || (a.seconds == b.seconds && a.nanos > b.nanos)
}

/// What a change to an existing file leads to.
#[derive(Debug, Clone, Copy, PartialEq, Eq, Structural)]
pub enum ModifiedStep {
    /// No document has the file's slug: sync it as a new file.
    TreatAsCreated,
    /// The stored content hash equals the file's: nothing to do.
    Unchanged,
    /// Update the document; `conflict` when the stored copy is newer than
    /// the file.
    Update { conflict: bool },
}

/// The step for a modified file, from the document found by its slug (its
/// stored hash and last update), the file's hash, and the file's
/// modification time when it could be read.
pub open spec fn modified_step_of(
    existing: Option<(Option<Seq<char>>, UtcTimestamp)>,
    file_hash: Seq<char>,
    file_mtime: Option<UtcTimestamp>,
) -> ModifiedStep {
    match existing {
        None => ModifiedStep::TreatAsCreated,
        Some((stored, updated_at)) => if stored == Some(file_hash) {
            ModifiedStep::Unchanged
        } else {
            ModifiedStep::Update {
                conflict: match file_mtime {
                    Some(t) => later_than(updated_at, t),
                    None => false,
                },
            }
        },
    }
}

pub fn modified_step(
    existing: Option<(Option<&str>, UtcTimestamp)>,
    file_hash: &str,
    file_mtime: Option<UtcTimestamp>,
) -> (r: ModifiedStep)
    ensures
        r == modified_step_of(
            match existing {
                Some((h, t)) => Some(
                    (
                        match h {
                            Some(x) => Some(x@),
                            None => None,
                        },
                        t,
                    ),
                ),
                None => None,
            },
            file_hash@,
            file_mtime,
        ),
{
    match existing {
        None => ModifiedStep::TreatAsCreated,
        Some((stored, updated_at)) => {
            let same = match stored {
                Some(h) => {
                    let a = chars_of(h);
                    let b = chars_of(file_hash);
                    crate::text::chars_eq(a.as_slice(), b.as_slice())
                },
                None => false,
            };
            if same {
                ModifiedStep::Unchanged
            } else {
                let conflict = match file_mtime {
                    Some(t) => updated_at.seconds > t.seconds || (updated_at.seconds == t.seconds
                        && updated_at.nanos > t.nanos),
                    None => false,
                };
                ModifiedStep::Update { conflict }
            }
        },
    }
}

/// A skipped sync.
pub fn skipped(path: &str, reason: String) -> (r: SyncResult)
    ensures
        r matches SyncResult::Skipped { path: p, reason: q } && p@ == path@ && q == reason,
{
    SyncResult::Skipped { path: owned(path), reason }
}

/// A failed sync: what failed and why.
pub fn sync_error(path: &str, what: &str, detail: &str) -> (r: SyncResult)
    ensures
        r matches SyncResult::Error { path: p, message: m } && p@ == path@ && m@ == what@ + ": "@
            + detail@,
{
    let mut m = owned(what);
    push_str(&mut m, ": ");
    push_str(&mut m, detail);
    SyncResult::Error { path: owned(path), message: m }
}

/// Why a new file is skipped when a document already has its content.
pub fn duplicate_reason(existing_id: &str) -> (r: String)
    ensures
        r@ == "Duplicate content (hash matches document "@ + existing_id@ + ")"@,
{
    let mut m = owned("Duplicate content (hash matches document ");
    push_str(&mut m, existing_id);
    push_str(&mut m, ")");
    m
}

/// Why a modified file is skipped when its content did not change.
pub fn unchanged_reason() -> (r: String)
    ensures
        r@ == "Content unchanged (hash matches)"@,
{
    owned("Content unchanged (hash matches)")
}

/// Why a removed file is skipped when no document has its slug.
pub fn missing_document_reason(slug: &str) -> (r: String)
    ensures
        r@ == "No existing document with slug '"@ + slug@ + "'"@,
{
    let mut m = owned("No existing document with slug '");
    push_str(&mut m, slug);
    push_str(&mut m, "'");
    m
}

/// The edit count after one more edit.
pub fn next_edit_count(edit_count: i32) -> (r: i32)
    requires
        edit_count < i32::MAX,
    ensures
        r == edit_count + 1,
{
    edit_count + 1
}

} // verus!
