//! The Rust sources of a project, and what they mention.
use vstd::prelude::*;

use crate::issue::opt_view;
use crate::project::{join_path, path_join};
use crate::text::{
    chars_contain, chars_of, chars_order, find_from, find_from_exec, ident_char, is_ident_char,
    lemma_find_from, lemma_less_transitive, occurs_at, owned, seq_contains, seq_less, str_contains,
    views,
};

verus! {

/// One scanned `.rs` file.
#[derive(Debug, Clone, PartialEq, Eq)]
pub struct SourceFile {
    pub path: String,
    pub text: String,
}

/// The scanned `.rs` files under `src/` and `tests/`.
#[derive(Debug, Clone, PartialEq, Eq)]
pub struct SourceIndex {
    pub files: Vec<SourceFile>,
}

/// The step a crate-path scan takes past a rejected match: the crate name's
/// length, and at least one character.
pub open spec fn step_of(name_len: int) -> int {
    if name_len > 0 {
        name_len
    } else {
        1
    }
}

/// The scan for `needle` (a crate name followed by a suffix) from `pos`: a
/// match counts when it starts the text or follows a character that cannot
/// be part of an identifier; after a match that does not count the scan
/// resumes past the crate name.
pub open spec fn suffix_scan(text: Seq<char>, name_len: int, needle: Seq<char>, pos: int) -> bool
    decreases text.len() + 1 - pos,
{
    if pos < 0 || pos + needle.len() > text.len() {
        false
    } else if occurs_at(text, needle, pos) {
        if pos == 0 || !is_ident_char(text[pos - 1]) {
            true
        } else if pos + step_of(name_len) > text.len() + 1 {
            false
        } else {
            suffix_scan(text, name_len, needle, pos + step_of(name_len))
        }
    } else {
        suffix_scan(text, name_len, needle, pos + 1)
    }
}

/// The scan for `needle` (`extern crate <name>`) from `pos`: a match counts
/// when no identifier character follows it; after one that does not count
/// the scan resumes past the match.
pub open spec fn extern_scan(text: Seq<char>, needle: Seq<char>, pos: int) -> bool
    decreases text.len() + 1 - pos,
{
    if pos < 0 || pos + needle.len() > text.len() {
        false
    } else if occurs_at(text, needle, pos) {
        if pos + needle.len() >= text.len() || !is_ident_char(text[pos + needle.len()]) {
            true
        } else if needle.len() == 0 {
            false
        } else {
            extern_scan(text, needle, pos + needle.len())
        }
    } else {
        extern_scan(text, needle, pos + 1)
    }
}

/// `text` refers to the crate `name` in one of the forms the scanner knows.
pub open spec fn mentions_crate(text: Seq<char>, name: Seq<char>) -> bool {
    ||| suffix_scan(text, name.len() as int, name + "::"@, 0)
    ||| suffix_scan(text, name.len() as int, name + "!"@, 0)
    ||| suffix_scan(text, name.len() as int, name + ";"@, 0)
    ||| extern_scan(text, "extern crate "@ + name, 0)
    ||| seq_contains(text, "use "@ + name + " as "@)
    ||| seq_contains(text, "#["@ + name + "]"@)
    ||| seq_contains(text, "#["@ + name + "("@)
}

proof fn lemma_suffix_skip(text: Seq<char>, name_len: int, needle: Seq<char>, a: int, b: int)
    requires
        0 <= a <= b,
        forall|j: int| a <= j < b ==> !occurs_at(text, needle, j),
        b <= text.len() + 1,
    ensures
        suffix_scan(text, name_len, needle, a) == suffix_scan(text, name_len, needle, b),
    decreases b - a,
{
    if a < b {
        lemma_suffix_skip(text, name_len, needle, a + 1, b);
    }
}

proof fn lemma_extern_skip(text: Seq<char>, needle: Seq<char>, a: int, b: int)
    requires
        0 <= a <= b,
        forall|j: int| a <= j < b ==> !occurs_at(text, needle, j),
        b <= text.len() + 1,
    ensures
        extern_scan(text, needle, a) == extern_scan(text, needle, b),
    decreases b - a,
{
    if a < b {
        lemma_extern_skip(text, needle, a + 1, b);
    }
}

/// `needle` stands in `text` at `p`, at the start of the text or after a
/// character that cannot continue an identifier.
pub open spec fn boundary_match(text: Seq<char>, needle: Seq<char>, p: int) -> bool {
    occurs_at(text, needle, p) && (p == 0 || !is_ident_char(text[p - 1]))
}

/// Every character of `name` can stand in an identifier, as in a crate
/// name as Rust code writes it.
pub open spec fn is_identifier_text(name: Seq<char>) -> bool {
    forall|i: int| 0 <= i < name.len() ==> is_ident_char(#[trigger] name[i])
}

proof fn lemma_suffix_scan_from(text: Seq<char>, name: Seq<char>, suffix: Seq<char>, pos: int)
    requires
        0 <= pos <= text.len() + 1,
        name.len() > 0,
        is_identifier_text(name),
    ensures
        suffix_scan(text, name.len() as int, name + suffix, pos) <==> exists|p: int|
            pos <= p && #[trigger] boundary_match(text, name + suffix, p),
    decreases text.len() + 1 - pos,
{
    let needle = name + suffix;
    let n = name.len() as int;
    if pos + needle.len() > text.len() {
        assert forall|p: int| pos <= p implies !#[trigger] boundary_match(text, needle, p) by {}
    } else if occurs_at(text, needle, pos) {
        if pos == 0 || !is_ident_char(text[pos - 1]) {
            assert(boundary_match(text, needle, pos));
        } else {
            // An occurrence that starts inside the crate name follows one of
            // its characters, so it is no boundary match.
            assert forall|q: int| pos <= q < pos + n implies !#[trigger] boundary_match(
                text,
                needle,
                q,
            ) by {
                if q > pos {
                    assert(text.subrange(pos, pos + needle.len())[q - 1 - pos] == needle[q - 1
                        - pos]);
                    assert(needle[q - 1 - pos] == name[q - 1 - pos]);
                    assert(is_ident_char(name[q - 1 - pos]));
                }
            }
            if pos + n > text.len() + 1 {
                assert forall|p: int| pos <= p implies !#[trigger] boundary_match(text, needle, p) by {
                }
            } else {
                lemma_suffix_scan_from(text, name, suffix, pos + n);
                if exists|p: int| pos <= p && #[trigger] boundary_match(text, needle, p) {
                    let p = choose|p: int| pos <= p && #[trigger] boundary_match(text, needle, p);
                    assert(pos + n <= p);
                }
            }
        }
    } else {
        lemma_suffix_scan_from(text, name, suffix, pos + 1);
        if exists|p: int| pos <= p && #[trigger] boundary_match(text, needle, p) {
            let p = choose|p: int| pos <= p && #[trigger] boundary_match(text, needle, p);
            assert(pos + 1 <= p);
        }
    }
}

/// For a crate name made of identifier characters, the path scan finds the
/// name with its suffix exactly when it stands somewhere at the start of the
/// text or after a non-identifier character: an occurrence inside a longer
/// identifier never counts, and none that counts is passed over.
pub proof fn law_crate_suffix_scan(text: Seq<char>, name: Seq<char>, suffix: Seq<char>)
    requires
        name.len() > 0,
        is_identifier_text(name),
    ensures
        suffix_scan(text, name.len() as int, name + suffix, 0) <==> exists|p: int|
            #[trigger] boundary_match(text, name + suffix, p),
{
    lemma_suffix_scan_from(text, name, suffix, 0);
    if exists|p: int| #[trigger] boundary_match(text, name + suffix, p) {
        let p = choose|p: int| #[trigger] boundary_match(text, name + suffix, p);
        assert(0 <= p);
    }
}

/// `needle` stands in `text` at `p` and no identifier character follows it.
pub open spec fn closed_match(text: Seq<char>, needle: Seq<char>, p: int) -> bool {
    occurs_at(text, needle, p) && (p + needle.len() >= text.len() || !is_ident_char(
        text[p + needle.len()],
    ))
}

/// An `extern crate` line counts only when no identifier character follows
/// the crate name.
pub proof fn law_extern_scan_sound(text: Seq<char>, needle: Seq<char>, pos: int)
    requires
        0 <= pos,
    ensures
        extern_scan(text, needle, pos) ==> exists|p: int|
            pos <= p && #[trigger] closed_match(text, needle, p),
    decreases text.len() + 1 - pos,
{
    if pos + needle.len() > text.len() {
    } else if occurs_at(text, needle, pos) {
        if pos + needle.len() >= text.len() || !is_ident_char(text[pos + needle.len()]) {
            assert(closed_match(text, needle, pos));
        } else if needle.len() > 0 {
            law_extern_scan_sound(text, needle, pos + needle.len());
        }
    } else {
        law_extern_scan_sound(text, needle, pos + 1);
    }
}

/// Concatenation of two strings.
fn concat2(a: &str, b: &str) -> (r: String)
    ensures
        r@ == a@ + b@,
{
    let mut out = owned(a);
    out.append(b);
    out
}

/// Concatenation of three strings.
fn concat3(a: &str, b: &str, c: &str) -> (r: String)
    ensures
        r@ == a@ + b@ + c@,
{
    let mut out = owned(a);
    out.append(b);
    out.append(c);
    out
}

/// `text` contains `crate_name` directly followed by `suffix`, at the start
/// or after a character that cannot continue an identifier.
pub fn contains_crate_suffix(text: &str, crate_name: &str, suffix: &str) -> (r: bool)
    ensures
        r == suffix_scan(text@, crate_name@.len() as int, crate_name@ + suffix@, 0),
{
    let needle = concat2(crate_name, suffix);
    let t = chars_of(text);
    let n = chars_of(needle.as_str());
    assert(n@ == crate_name@ + suffix@);
    let name_len = crate_name.unicode_len();
    let step = if name_len > 0 {
        name_len
    } else {
        1
    };
    let mut offset: usize = 0;
    loop
        invariant
            t@ == text@,
            n@ == crate_name@ + suffix@,
            name_len == crate_name@.len(),
            step as int == step_of(name_len as int),
            offset <= t@.len() + 1,
            suffix_scan(t@, name_len as int, n@, 0) == suffix_scan(t@, name_len as int, n@, offset as int),
        decreases t@.len() + 1 - offset,
    {
        if offset > t.len() {
            return false;
        }
        let found = find_from_exec(&t, &n, offset);
        proof {
            lemma_find_from(t@, n@, offset as int);
        }
        match found {
            None => {
                proof {
                    lemma_suffix_skip(t@, name_len as int, n@, offset as int, (t@.len() + 1) as int);
                }
                return false;
            },
            Some(i) => {
                proof {
                    lemma_suffix_skip(t@, name_len as int, n@, offset as int, i as int);
                }
                if i == 0 || !ident_char(t[i - 1]) {
                    return true;
                }
                if step > t.len() - i {
                    proof {
                        if i + step == t@.len() + 1 {
                            assert(!suffix_scan(t@, name_len as int, n@, (t@.len() + 1) as int));
                        }
                    }
                    return false;
                }
                offset = i + step;
            },
        }
    }
}

/// `text` contains `extern crate <crate_name>` not followed by an
/// identifier character.
pub fn contains_extern_crate(text: &str, crate_name: &str) -> (r: bool)
    ensures
        r == extern_scan(text@, "extern crate "@ + crate_name@, 0),
{
    let needle = concat2("extern crate ", crate_name);
    let t = chars_of(text);
    let n = chars_of(needle.as_str());
    assert(n@ == "extern crate "@ + crate_name@);
    let mut offset: usize = 0;
    loop
        invariant
            t@ == text@,
            n@ == "extern crate "@ + crate_name@,
            offset <= t@.len() + 1,
            extern_scan(t@, n@, 0) == extern_scan(t@, n@, offset as int),
        decreases t@.len() + 1 - offset,
    {
        if offset > t.len() {
            return false;
        }
        let found = find_from_exec(&t, &n, offset);
        proof {
            lemma_find_from(t@, n@, offset as int);
        }
        match found {
            None => {
                proof {
                    lemma_extern_skip(t@, n@, offset as int, (t@.len() + 1) as int);
                }
                return false;
            },
            Some(i) => {
                proof {
                    lemma_extern_skip(t@, n@, offset as int, i as int);
                }
                let end = i + n.len();
                if end >= t.len() || !ident_char(t[end]) {
                    return true;
                }
                if n.len() == 0 {
                    return false;
                }
                offset = end;
            },
        }
    }
}

/// `text.contains(pattern)`.
pub fn contains_dynamic(text: &str, pattern: String) -> (r: bool)
    ensures
        r == seq_contains(text@, pattern@),
{
    str_contains(text, pattern.as_str())
}

/// `text` refers to the crate `crate_name`: a path, a macro call, a `use`
/// statement, an `extern crate`, a `use .. as` or an attribute.
pub fn source_mentions_crate(text: &str, crate_name: &str) -> (r: bool)
    ensures
        r == mentions_crate(text@, crate_name@),
{
    contains_crate_suffix(text, crate_name, "::") || contains_crate_suffix(text, crate_name, "!")
        || contains_crate_suffix(text, crate_name, ";") || contains_extern_crate(text, crate_name)
        || contains_dynamic(text, concat3("use ", crate_name, " as "))
        || contains_dynamic(text, concat3("#[", crate_name, "]"))
        || contains_dynamic(text, concat3("#[", crate_name, "("))
}

pub open spec fn any_file_contains(files: Seq<SourceFile>, token: Seq<char>) -> bool {
    exists|i: int| 0 <= i < files.len() && seq_contains(#[trigger] files[i].text@, token)
}

pub open spec fn any_file_mentions(files: Seq<SourceFile>, name: Seq<char>) -> bool {
    exists|i: int| 0 <= i < files.len() && mentions_crate(#[trigger] files[i].text@, name)
}

impl SourceIndex {
    pub open spec fn spec_contains_token(&self, token: Seq<char>) -> bool {
        any_file_contains(self.files@, token)
    }

    pub open spec fn spec_has_ambiguous_generation(&self) -> bool {
        ||| self.spec_contains_token("include!("@)
        ||| self.spec_contains_token("macro_rules!"@)
        ||| self.spec_contains_token("proc_macro"@)
    }

    /// Some scanned file contains `token`.
    pub fn contains_token(&self, token: &str) -> (r: bool)
        ensures
            r == self.spec_contains_token(token@),
    {
        let pat = chars_of(token);
        for i in 0..self.files.len()
            invariant
                pat@ == token@,
                forall|j: int| 0 <= j < i ==> !seq_contains(#[trigger] self.files@[j].text@, token@),
        {
            let t = chars_of(self.files[i].text.as_str());
            if chars_contain(&t, &pat) {
                return true;
            }
        }
        false
    }

    /// Some scanned file refers to the crate `crate_name`.
    pub fn crate_appears_used(&self, crate_name: &str) -> (r: bool)
        ensures
            r == any_file_mentions(self.files@, crate_name@),
    {
        for i in 0..self.files.len()
            invariant
                forall|j: int|
                    0 <= j < i ==> !mentions_crate(#[trigger] self.files@[j].text@, crate_name@),
        {
            if source_mentions_crate(self.files[i].text.as_str(), crate_name) {
                return true;
            }
        }
        false
    }

    /// The sources hold `include!(`, `macro_rules!` or `proc_macro`, so a
    /// text scan may miss how crates are used.
    pub fn has_ambiguous_generation(&self) -> (r: bool)
        ensures
            r == self.spec_has_ambiguous_generation(),
    {
        self.contains_token("include!(") || self.contains_token("macro_rules!")
            || self.contains_token("proc_macro")
    }
}

// ---------------------------------------------------------------------------
// Which files are scanned, and in what order
// ---------------------------------------------------------------------------

/// The extension of the file `path` names, as `camino::Utf8Path::extension`
/// gives it.
pub uninterp spec fn path_extension(path: Seq<char>) -> Option<Seq<char>>;

/// The components of `path` as `camino::Utf8Path::iter` yields them, each as
/// text: the root as `/`, `.` and `..` as themselves, any other component
/// as its name.
pub uninterp spec fn path_components(path: Seq<char>) -> Seq<Seq<char>>;

/// `camino::Utf8Path::extension`: the text after the last `.` of the file
/// name, if there is one. Depends on the text of the path alone.
#[verifier::external_body]
fn extension_of(path: &str) -> (r: Option<String>)
    ensures
        opt_view(r) == path_extension(path@),
{
    camino::Utf8Path::new(path).extension().map(|e| e.to_owned())
}

/// `camino::Utf8Path::iter`: the components of the path as text. Depends on
/// the text of the path alone.
#[verifier::external_body]
fn components_of(path: &str) -> (r: Vec<String>)
    ensures
        views(r@) == path_components(path@),
{
    camino::Utf8Path::new(path).iter().map(|c| c.to_owned()).collect()
}

/// The scan reads the file `path`: its extension is `rs`.
pub fn is_rust_source(path: &str) -> (r: bool)
    ensures
        r == (path_extension(path@) == Some("rs"@)),
{
    match extension_of(path) {
        Some(e) => crate::text::str_eq(e.as_str(), "rs"),
        None => false,
    }
}

/// The directories of a project that the scan reads: `src` and `tests`
/// under its root.
pub fn source_dirs(root: &str) -> (r: Vec<String>)
    ensures
        views(r@) == seq![path_join(root@, "src"@), path_join(root@, "tests"@)],
{
    let mut dirs: Vec<String> = Vec::new();
    dirs.push(join_path(root, "src"));
    dirs.push(join_path(root, "tests"));
    assert(views(dirs@) =~= seq![path_join(root@, "src"@), path_join(root@, "tests"@)]);
    dirs
}

/// A component as a sort key: camino orders the root before `.`, `.`
/// before `..`, and those before named components, which it orders by
/// their text.
pub open spec fn component_key(c: Seq<char>) -> Seq<char> {
    if c == "/"@ {
        seq!['\u{1}']
    } else if c == "."@ {
        seq!['\u{2}']
    } else if c == ".."@ {
        seq!['\u{3}']
    } else {
        seq!['\u{4}'] + c
    }
}

/// The keys of the components, each closed by a `NUL`, which sorts before
/// every key character, so that a path sorts before the longer paths it
/// begins.
pub open spec fn components_key(cs: Seq<Seq<char>>) -> Seq<char>
    decreases cs.len(),
{
    if cs.len() == 0 {
        Seq::empty()
    } else {
        components_key(cs.drop_last()) + component_key(cs.last()) + seq!['\u{0}']
    }
}

/// The sort key of a path: component by component, as camino's `Ord`
/// compares paths.
pub open spec fn path_key(path: Seq<char>) -> Seq<char> {
    components_key(path_components(path))
}

/// `a` sorts before `b` in camino's path order.
pub open spec fn path_precedes(a: Seq<char>, b: Seq<char>) -> bool {
    seq_less(path_key(a), path_key(b))
}

/// No file is listed after one whose path it precedes.
pub open spec fn sorted_by_path(files: Seq<SourceFile>) -> bool {
    forall|i: int, j: int|
        0 <= i < j < files.len() ==> !path_precedes(
            (#[trigger] files[j]).path@,
            (#[trigger] files[i]).path@,
        )
}

fn component_key_exec(c: &str) -> (r: Vec<char>)
    ensures
        r@ == component_key(c@),
{
    let mut out: Vec<char> = Vec::new();
    if crate::text::str_eq(c, "/") {
        out.push('\u{1}');
    } else if crate::text::str_eq(c, ".") {
        out.push('\u{2}');
    } else if crate::text::str_eq(c, "..") {
        out.push('\u{3}');
    } else {
        out.push('\u{4}');
        let cs = chars_of(c);
        let ghost start = out@;
        for i in 0..cs.len()
            invariant
                out@ == start + cs@.take(i as int),
        {
            out.push(cs[i]);
            assert(cs@.take(i + 1) == cs@.take(i as int).push(cs@[i as int]));
        }
        assert(cs@.take(cs@.len() as int) == cs@);
    }
    assert(out@ =~= component_key(c@));
    out
}

fn path_key_exec(path: &str) -> (r: Vec<char>)
    ensures
        r@ == path_key(path@),
{
    let comps = components_of(path);
    let ghost cs = views(comps@);
    let mut out: Vec<char> = Vec::new();
    for i in 0..comps.len()
        invariant
            cs == views(comps@),
            out@ == components_key(cs.take(i as int)),
    {
        let k = component_key_exec(comps[i].as_str());
        assert(cs.take(i + 1).drop_last() == cs.take(i as int));
        assert(cs.take(i + 1).last() == comps@[i as int]@);
        let ghost before = out@;
        for j in 0..k.len()
            invariant
                out@ == before + k@.take(j as int),
        {
            out.push(k[j]);
            assert(k@.take(j + 1) == k@.take(j as int).push(k@[j as int]));
        }
        assert(k@.take(k@.len() as int) == k@);
        out.push('\u{0}');
        assert(out@ =~= components_key(cs.take(i + 1)));
    }
    assert(cs.take(comps@.len() as int) == cs);
    out
}

proof fn lemma_empty_to_multiset<A>(s: Seq<A>)
    requires
        s.len() == 0,
    ensures
        s.to_multiset() =~= vstd::multiset::Multiset::<A>::empty(),
{
    broadcast use vstd::seq_lib::group_to_multiset_ensures;
    broadcast use vstd::multiset::group_multiset_axioms;

    assert forall|a: A| s.to_multiset().count(a) == 0 by {
        assert(!s.contains(a));
    }
}

fn key_less(a: &Vec<char>, b: &Vec<char>) -> (r: bool)
    ensures
        r == seq_less(a@, b@),
{
    match chars_order(a, b) {
        Some(less) => less,
        None => false,
    }
}

/// The scanned files, ordered by path as camino orders paths.
pub fn index_sources(files: Vec<SourceFile>) -> (r: SourceIndex)
    ensures
        r.files@.to_multiset() == files@.to_multiset(),
        sorted_by_path(r.files@),
{
    broadcast use vstd::seq_lib::group_to_multiset_ensures;
    broadcast use vstd::multiset::group_multiset_axioms;

    let ghost all = files@;
    proof {
        lemma_empty_to_multiset(Seq::<SourceFile>::empty());
    }
    let mut rest = files;
    let mut sorted: Vec<SourceFile> = Vec::new();
    let mut keys: Vec<Vec<char>> = Vec::new();
    while rest.len() > 0
        invariant
            sorted@.len() == keys@.len(),
            forall|k: int| 0 <= k < keys@.len() ==> (#[trigger] keys@[k])@ == path_key(
                sorted@[k].path@,
            ),
            sorted_by_path(sorted@),
            sorted@.to_multiset().add(rest@.to_multiset()) == all.to_multiset(),
        decreases rest@.len(),
    {
        let ghost before_rest = rest@;
        let file = rest.pop().unwrap();
        assert(before_rest == rest@.push(file));
        let key = path_key_exec(file.path.as_str());
        let mut p: usize = 0;
        while p < sorted.len() && !key_less(&key, &keys[p])
            invariant
                p <= sorted@.len(),
                sorted@.len() == keys@.len(),
                forall|k: int| 0 <= k < keys@.len() ==> (#[trigger] keys@[k])@ == path_key(
                    sorted@[k].path@,
                ),
                key@ == path_key(file.path@),
                forall|k: int| 0 <= k < p ==> !seq_less(key@, (#[trigger] keys@[k])@),
            decreases sorted@.len() - p,
        {
            p = p + 1;
        }
        let ghost old_sorted = sorted@;
        let ghost old_keys = keys@;
        proof {
            if p < old_sorted.len() {
                assert(seq_less(key@, old_keys[p as int]@));
            }
        }
        sorted.insert(p, file);
        keys.insert(p, key);
        proof {
            assert(sorted@ == old_sorted.insert(p as int, file));
            assert forall|k: int| 0 <= k < keys@.len() implies (#[trigger] keys@[k])@ == path_key(
                sorted@[k].path@,
            ) by {
                if k < p {
                    assert(keys@[k] == old_keys[k] && sorted@[k] == old_sorted[k]);
                } else if k > p {
                    assert(keys@[k] == old_keys[k - 1] && sorted@[k] == old_sorted[k - 1]);
                }
            }
            assert forall|i: int, j: int| 0 <= i < j < sorted@.len() implies !path_precedes(
                (#[trigger] sorted@[j]).path@,
                (#[trigger] sorted@[i]).path@,
            ) by {
                if j < p {
                    assert(sorted@[i] == old_sorted[i] && sorted@[j] == old_sorted[j]);
                } else if j == p {
                    assert(sorted@[i] == old_sorted[i]);
                    assert(keys@[i] == old_keys[i]);
                } else if i < p {
                    assert(sorted@[i] == old_sorted[i] && sorted@[j] == old_sorted[j - 1]);
                } else if i == p {
                    assert(sorted@[j] == old_sorted[j - 1]);
                    let kj = path_key(old_sorted[j - 1].path@);
                    let kp = path_key(old_sorted[p as int].path@);
                    assert(old_keys[j - 1]@ == kj);
                    assert(old_keys[p as int]@ == kp);
                    if seq_less(kj, key@) {
                        if j - 1 == p {
                            crate::text::lemma_less_transitive(kj, key@, kp);
                            crate::text::lemma_less_irreflexive(kj);
                        } else {
                            lemma_less_transitive(kj, key@, kp);
                            assert(!path_precedes(old_sorted[j - 1].path@, old_sorted[p as int].path@));
                        }
                    }
                } else {
                    assert(sorted@[i] == old_sorted[i - 1] && sorted@[j] == old_sorted[j - 1]);
                }
            }
            vstd::seq_lib::to_multiset_insert(old_sorted, p as int, file);
            vstd::seq_lib::to_multiset_build(rest@, file);
            assert(sorted@.to_multiset() =~= old_sorted.to_multiset().insert(file));
            assert(before_rest.to_multiset() =~= rest@.to_multiset().insert(file));
            assert(sorted@.to_multiset().add(rest@.to_multiset()) =~= all.to_multiset());
        }
    }
    proof {
        lemma_empty_to_multiset(rest@);
    }
    assert(sorted@.to_multiset() =~= all.to_multiset());
    SourceIndex { files: sorted }
}

} // verus!
