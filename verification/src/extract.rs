//! The declaration extractor: a pure, line-oriented parser that turns one
//! source file's text into a module descriptor (doc comment plus declared
//! submodule names) and the structs, enums and functions declared directly
//! in that file.
//!
//! The grammar is line-based. After stripping surrounding whitespace, a line
//! is one of: an inner doc line (`//! ...`) contributing to the module's
//! docstring; an outer doc line (`/// ...`) contributing to the docstring of
//! the next item; a submodule declaration (`pub mod <name>;`); an item
//! declaration (`pub struct <name>`, `pub enum <name>`, `pub fn <name>`);
//! or anything else, which detaches any pending outer doc lines. A
//! declaration whose name is missing or not an identifier fails the whole
//! extraction.

use vstd::prelude::*;
use crate::data::{Enum, Function, Module, Struct};

verus! {

/// Whitespace that may surround the meaningful part of a line.
pub open spec fn is_space(c: char) -> bool {
    c == ' ' || c == '\t' || c == '\r'
}

/// Characters an identifier may consist of.
pub open spec fn is_ident_char(c: char) -> bool {
    ('a' <= c && c <= 'z') || ('A' <= c && c <= 'Z') || ('0' <= c && c <= '9') || c == '_'
}

pub open spec fn space_fn() -> spec_fn(char) -> bool {
    |c: char| is_space(c)
}

pub open spec fn ident_fn() -> spec_fn(char) -> bool {
    |c: char| is_ident_char(c)
}

/// How many characters at the front of `s` satisfy `p`.
pub open spec fn count_leading(s: Seq<char>, p: spec_fn(char) -> bool) -> int
    decreases s.len(),
{
    if s.len() == 0 {
        0
    } else if p(s[0]) {
        1 + count_leading(s.skip(1), p)
    } else {
        0
    }
}

/// How many characters at the back of `s` satisfy `p`.
pub open spec fn count_trailing(s: Seq<char>, p: spec_fn(char) -> bool) -> int
    decreases s.len(),
{
    if s.len() == 0 {
        0
    } else if p(s.last()) {
        1 + count_trailing(s.drop_last(), p)
    } else {
        0
    }
}

/// `count_leading` is the position of the first character that fails `p`
/// (or the length, if none does).
pub proof fn lemma_count_leading(s: Seq<char>, p: spec_fn(char) -> bool)
    ensures
        0 <= count_leading(s, p) <= s.len(),
        forall|j: int| 0 <= j < count_leading(s, p) ==> p(#[trigger] s[j]),
        count_leading(s, p) < s.len() ==> !p(s[count_leading(s, p)]),
    decreases s.len(),
{
    if s.len() == 0 {
    } else if p(s[0]) {
        lemma_count_leading(s.skip(1), p);
        let c = count_leading(s, p);
        assert forall|j: int| 0 <= j < c implies p(#[trigger] s[j]) by {
            if j > 0 {
                assert(s.skip(1)[j - 1] == s[j]);
            }
        }
        if c < s.len() {
            assert(s.skip(1)[c - 1] == s[c]);
        }
    }
}

/// `count_trailing` is the distance from the end to the last character that
/// fails `p` (or the length, if none does).
pub proof fn lemma_count_trailing(s: Seq<char>, p: spec_fn(char) -> bool)
    ensures
        0 <= count_trailing(s, p) <= s.len(),
        forall|j: int| s.len() - count_trailing(s, p) <= j < s.len() ==> p(#[trigger] s[j]),
        count_trailing(s, p) < s.len() ==> !p(s[s.len() - count_trailing(s, p) - 1]),
    decreases s.len(),
{
    if s.len() == 0 {
    } else if p(s.last()) {
        lemma_count_trailing(s.drop_last(), p);
        let c = count_trailing(s, p);
        assert forall|j: int| s.len() - c <= j < s.len() implies p(#[trigger] s[j]) by {
            if j < s.len() - 1 {
                assert(s.drop_last()[j] == s[j]);
            }
        }
        if c < s.len() {
            assert(s.drop_last()[s.len() - c - 1] == s[s.len() - 1 - c]);
        }
    }
}

/// `s` with surrounding whitespace removed.
pub open spec fn trimmed(s: Seq<char>) -> Seq<char> {
    let lead = count_leading(s, space_fn());
    if lead == s.len() {
        Seq::empty()
    } else {
        s.subrange(lead, s.len() - count_trailing(s, space_fn()))
    }
}

/// A non-empty run of identifier characters.
pub open spec fn is_ident(s: Seq<char>) -> bool {
    s.len() > 0 && forall|j: int| 0 <= j < s.len() ==> is_ident_char(#[trigger] s[j])
}

/// The identifier at the front of `s` (possibly empty).
pub open spec fn leading_ident(s: Seq<char>) -> Seq<char> {
    s.take(count_leading(s, ident_fn()))
}

/// `s` begins with `p`.
pub open spec fn starts_with(s: Seq<char>, p: Seq<char>) -> bool {
    p.len() <= s.len() && s.take(p.len() as int) == p
}

/// The text of a doc line after its marker: one leading space, if present,
/// separates the marker from the text and is not part of it.
pub open spec fn doc_content(s: Seq<char>) -> Seq<char> {
    if s.len() > 0 && s[0] == ' ' {
        s.skip(1)
    } else {
        s
    }
}

/// A further doc line extends a docstring; lines are joined by newlines.
pub open spec fn append_doc(d: Option<Seq<char>>, line: Seq<char>) -> Option<Seq<char>> {
    match d {
        Option::None => Option::Some(line),
        Option::Some(t) => Option::Some(t + "\n"@ + line),
    }
}

/// One extracted item declaration: its name and its attached doc comment.
#[verifier::ext_equal]
pub struct ItemDecl {
    pub name: Seq<char>,
    pub doc: Option<Seq<char>>,
}

/// The state of an extraction after some prefix of the lines: whether a
/// malformed declaration was seen, the module docstring and the doc lines
/// pending attachment so far, and the declarations collected so far.
#[verifier::ext_equal]
pub struct Extraction {
    pub failed: bool,
    pub module_doc: Option<Seq<char>>,
    pub pending_doc: Option<Seq<char>>,
    pub decls: Seq<Seq<char>>,
    pub structs: Seq<ItemDecl>,
    pub enums: Seq<ItemDecl>,
    pub functions: Seq<ItemDecl>,
}

pub open spec fn init_extraction() -> Extraction {
    Extraction {
        failed: false,
        module_doc: Option::None,
        pending_doc: Option::None,
        decls: Seq::empty(),
        structs: Seq::empty(),
        enums: Seq::empty(),
        functions: Seq::empty(),
    }
}

/// How one line changes the extraction state.
pub open spec fn line_step(st: Extraction, line: Seq<char>) -> Extraction {
    if st.failed {
        st
    } else {
        let t = trimmed(line);
        if starts_with(t, "//!"@) {
            Extraction { module_doc: append_doc(st.module_doc, doc_content(t.skip(3))), ..st }
        } else if starts_with(t, "///"@) {
            Extraction { pending_doc: append_doc(st.pending_doc, doc_content(t.skip(3))), ..st }
        } else if starts_with(t, "pub mod "@) {
            let rest = t.skip(8);
            if rest.len() > 0 && rest.last() == ';' && is_ident(trimmed(rest.drop_last())) {
                Extraction {
                    decls: st.decls.push(trimmed(rest.drop_last())),
                    pending_doc: Option::None,
                    ..st
                }
            } else {
                Extraction { failed: true, ..st }
            }
        } else if starts_with(t, "pub struct "@) {
            let name = leading_ident(t.skip(11));
            if name.len() > 0 {
                Extraction {
                    structs: st.structs.push(ItemDecl { name, doc: st.pending_doc }),
                    pending_doc: Option::None,
                    ..st
                }
            } else {
                Extraction { failed: true, ..st }
            }
        } else if starts_with(t, "pub enum "@) {
            let name = leading_ident(t.skip(9));
            if name.len() > 0 {
                Extraction {
                    enums: st.enums.push(ItemDecl { name, doc: st.pending_doc }),
                    pending_doc: Option::None,
                    ..st
                }
            } else {
                Extraction { failed: true, ..st }
            }
        } else if starts_with(t, "pub fn "@) {
            let name = leading_ident(t.skip(7));
            if name.len() > 0 {
                Extraction {
                    functions: st.functions.push(ItemDecl { name, doc: st.pending_doc }),
                    pending_doc: Option::None,
                    ..st
                }
            } else {
                Extraction { failed: true, ..st }
            }
        } else {
            Extraction { pending_doc: Option::None, ..st }
        }
    }
}

/// The extraction state after consuming all of `s`, with `cur` the portion
/// of the current line read so far and `st` the state before it. Newlines
/// close a line; the end of the text closes the last line.
pub open spec fn ext_chars(s: Seq<char>, cur: Seq<char>, st: Extraction) -> Extraction
    decreases s.len(),
{
    if s.len() == 0 {
        line_step(st, cur)
    } else if s[0] == '\n' {
        ext_chars(s.skip(1), Seq::empty(), line_step(st, cur))
    } else {
        ext_chars(s.skip(1), cur.push(s[0]), st)
    }
}

/// What extracting a whole file's text yields.
pub open spec fn extract(s: Seq<char>) -> Extraction {
    ext_chars(s, Seq::empty(), init_extraction())
}

fn is_space_c(c: char) -> (b: bool)
    ensures
        b == is_space(c),
{
    c == ' ' || c == '\t' || c == '\r'
}

fn is_ident_char_c(c: char) -> (b: bool)
    ensures
        b == is_ident_char(c),
{
    ('a' <= c && c <= 'z') || ('A' <= c && c <= 'Z') || ('0' <= c && c <= '9') || c == '_'
}

/// The bounds of `trimmed` applied to the range `[from, to)` of `s`.
fn trim_range(s: &str, from: usize, to: usize) -> (r: (usize, usize))
    requires
        from <= to <= s@.len(),
    ensures
        from <= r.0 <= r.1 <= to,
        trimmed(s@.subrange(from as int, to as int)) == s@.subrange(r.0 as int, r.1 as int),
{
    let ghost line = s@.subrange(from as int, to as int);
    let mut a = from;
    while a < to && is_space_c(s.get_char(a))
        invariant
            from <= a <= to <= s@.len(),
            forall|j: int| from <= j < a ==> is_space(#[trigger] s@[j]),
        decreases to - a,
    {
        a = a + 1;
    }
    proof {
        lemma_count_leading(line, space_fn());
        let c = count_leading(line, space_fn());
        assert forall|j: int| 0 <= j < a - from implies space_fn()(line[j]) by {
            assert(line[j] == s@[from + j]);
        }
        if c < a - from {
            assert(space_fn()(line[c]));
            assert(!space_fn()(line[c]));
        }
        if c > a - from {
            assert(a < to);
            assert(space_fn()(line[a - from]));
            assert(line[a - from] == s@[a as int]);
        }
        assert(c == a - from);
    }
    if a == to {
        proof {
            assert(trimmed(line) =~= s@.subrange(a as int, a as int));
        }
        return (a, a);
    }
    let mut b = to;
    while b > a && is_space_c(s.get_char(b - 1))
        invariant
            from <= a <= b <= to <= s@.len(),
            forall|j: int| b <= j < to ==> is_space(#[trigger] s@[j]),
            !is_space(s@[a as int]),
        decreases b,
    {
        b = b - 1;
    }
    proof {
        lemma_count_trailing(line, space_fn());
        let tr = count_trailing(line, space_fn());
        assert forall|j: int| b - from <= j < to - from implies space_fn()(line[j]) by {
            assert(line[j] == s@[from + j]);
        }
        // b > a here: the character at `a` is not a space.
        assert(b > a);
        assert(!space_fn()(line[b - 1 - from]));
        if tr < to - b {
            assert(space_fn()(line[line.len() - tr - 1]));
            assert(!space_fn()(line[line.len() - tr - 1]));
        }
        if tr > to - b {
            assert(space_fn()(line[b - 1 - from]));
        }
        assert(tr == to - b);
        assert(trimmed(line) =~= s@.subrange(a as int, b as int));
    }
    (a, b)
}

/// Whether the range `[from, to)` of `s` begins with the pattern `pat`.
fn match_at(s: &str, from: usize, to: usize, pat: &str) -> (b: bool)
    requires
        from <= to <= s@.len(),
    ensures
        b == starts_with(s@.subrange(from as int, to as int), pat@),
{
    let ghost t = s@.subrange(from as int, to as int);
    let n = pat.unicode_len();
    if n > to - from {
        return false;
    }
    let mut i: usize = 0;
    while i < n
        invariant
            0 <= i <= n,
            n == pat@.len(),
            from + n <= to <= s@.len(),
            forall|j: int| 0 <= j < i ==> s@[from + j] == pat@[j],
        decreases n - i,
    {
        if s.get_char(from + i) != pat.get_char(i) {
            proof {
                assert(s@.subrange(from as int, to as int).take(n as int)[i as int] == s@[
                    from + i
                ]);
            }
            return false;
        }
        i = i + 1;
    }
    proof {
        assert(t.take(n as int) =~= pat@);
    }
    true
}

/// Whether the range `[from, to)` of `s` is a non-empty identifier.
fn check_ident(s: &str, from: usize, to: usize) -> (b: bool)
    requires
        from <= to <= s@.len(),
    ensures
        b == is_ident(s@.subrange(from as int, to as int)),
{
    let ghost t = s@.subrange(from as int, to as int);
    if from == to {
        return false;
    }
    let mut i = from;
    while i < to
        invariant
            from <= i <= to <= s@.len(),
            forall|j: int| from <= j < i ==> is_ident_char(#[trigger] s@[j]),
        decreases to - i,
    {
        if !is_ident_char_c(s.get_char(i)) {
            proof {
                assert(s@.subrange(from as int, to as int)[i - from] == s@[i as int]);
            }
            return false;
        }
        i = i + 1;
    }
    proof {
        assert forall|j: int| 0 <= j < t.len() implies is_ident_char(#[trigger] t[j]) by {
            assert(t[j] == s@[from + j]);
        }
    }
    true
}

/// The end of the identifier starting at `from` in the range `[from, to)`.
fn ident_end(s: &str, from: usize, to: usize) -> (r: usize)
    requires
        from <= to <= s@.len(),
    ensures
        from <= r <= to,
        r - from == count_leading(s@.subrange(from as int, to as int), ident_fn()),
{
    let ghost t = s@.subrange(from as int, to as int);
    let mut i = from;
    while i < to && is_ident_char_c(s.get_char(i))
        invariant
            from <= i <= to <= s@.len(),
            forall|j: int| from <= j < i ==> is_ident_char(#[trigger] s@[j]),
        decreases to - i,
    {
        i = i + 1;
    }
    proof {
        lemma_count_leading(t, ident_fn());
        let c = count_leading(t, ident_fn());
        assert forall|j: int| 0 <= j < i - from implies ident_fn()(t[j]) by {
            assert(t[j] == s@[from + j]);
        }
        if c < i - from {
            assert(ident_fn()(t[c]));
            assert(!ident_fn()(t[c]));
        }
        if c > i - from {
            assert(i < to);
            assert(ident_fn()(t[i - from]));
            assert(t[i - from] == s@[i as int]);
        }
    }
    i
}

/// The pairing of collected item names with their collected doc comments.
pub open spec fn zip_items(names: Seq<Seq<char>>, docs: Seq<Option<Seq<char>>>) -> Seq<ItemDecl> {
    Seq::new(names.len(), |i: int| ItemDecl { name: names[i], doc: docs[i] })
}

/// The working accumulator of an extraction, holding the same information
/// as an [`Extraction`] in executable form.
struct Acc {
    failed: bool,
    module_doc: Option<String>,
    pending_doc: Option<String>,
    decls: Vec<String>,
    struct_names: Vec<String>,
    struct_docs: Vec<Option<String>>,
    enum_names: Vec<String>,
    enum_docs: Vec<Option<String>>,
    fn_names: Vec<String>,
    fn_docs: Vec<Option<String>>,
}

spec fn acc_wf(a: Acc) -> bool {
    &&& a.struct_names.len() == a.struct_docs.len()
    &&& a.enum_names.len() == a.enum_docs.len()
    &&& a.fn_names.len() == a.fn_docs.len()
}

spec fn acc_view(a: Acc) -> Extraction {
    Extraction {
        failed: a.failed,
        module_doc: a.module_doc.deep_view(),
        pending_doc: a.pending_doc.deep_view(),
        decls: a.decls.deep_view(),
        structs: zip_items(a.struct_names.deep_view(), a.struct_docs.deep_view()),
        enums: zip_items(a.enum_names.deep_view(), a.enum_docs.deep_view()),
        functions: zip_items(a.fn_names.deep_view(), a.fn_docs.deep_view()),
    }
}

fn clone_opt_string(d: &Option<String>) -> (r: Option<String>)
    ensures
        r.deep_view() == d.deep_view(),
{
    match d {
        Option::None => Option::None,
        Option::Some(x) => Option::Some(x.clone()),
    }
}

/// Extends the docstring `d` with the doc-line text in the range
/// `[from, to)` of `s`.
fn append_doc_exec(d: &mut Option<String>, s: &str, from: usize, to: usize)
    requires
        from <= to <= s@.len(),
    ensures
        final(d).deep_view() == append_doc(old(d).deep_view(), s@.subrange(from as int, to as int)),
{
    let content = s.substring_char(from, to);
    let newd = match &*d {
        Option::None => content.to_owned(),
        Option::Some(x) => {
            let mut joined = x.clone();
            joined.append("\n");
            joined.append(content);
            joined
        },
    };
    *d = Option::Some(newd);
}

/// Applies [`line_step`] for the line in the range `[start, end)` of `s`.
fn step_line(acc: &mut Acc, s: &str, start: usize, end: usize)
    requires
        acc_wf(*old(acc)),
        start <= end <= s@.len(),
    ensures
        acc_wf(*final(acc)),
        acc_view(*final(acc)) == line_step(
            acc_view(*old(acc)),
            s@.subrange(start as int, end as int),
        ),
{
    proof {
        reveal_strlit("//!");
        reveal_strlit("///");
        reveal_strlit("pub mod ");
        reveal_strlit("pub struct ");
        reveal_strlit("pub enum ");
        reveal_strlit("pub fn ");
    }
    let ghost line = s@.subrange(start as int, end as int);
    let ghost st0 = acc_view(*acc);
    if acc.failed {
        return;
    }
    let (a, b) = trim_range(s, start, end);
    let ghost t = s@.subrange(a as int, b as int);
    if match_at(s, a, b, "//!") {
        let mut c = a + 3;
        if c < b && s.get_char(c) == ' ' {
            c = c + 1;
        }
        proof {
            assert(t.skip(3) =~= s@.subrange(a + 3, b as int));
            assert(doc_content(t.skip(3)) =~= s@.subrange(c as int, b as int));
        }
        append_doc_exec(&mut acc.module_doc, s, c, b);
        proof {
            assert(acc_view(*acc) =~= line_step(st0, line));
        }
    } else if match_at(s, a, b, "///") {
        let mut c = a + 3;
        if c < b && s.get_char(c) == ' ' {
            c = c + 1;
        }
        proof {
            assert(t.skip(3) =~= s@.subrange(a + 3, b as int));
            assert(doc_content(t.skip(3)) =~= s@.subrange(c as int, b as int));
        }
        append_doc_exec(&mut acc.pending_doc, s, c, b);
        proof {
            assert(acc_view(*acc) =~= line_step(st0, line));
        }
    } else if match_at(s, a, b, "pub mod ") {
        proof {
            assert(t.skip(8) =~= s@.subrange(a + 8, b as int));
        }
        if b > a + 8 && s.get_char(b - 1) == ';' {
            proof {
                assert(t.skip(8).drop_last() =~= s@.subrange(a + 8, b - 1));
            }
            let (na, nb) = trim_range(s, a + 8, b - 1);
            if check_ident(s, na, nb) {
                let name = s.substring_char(na, nb).to_owned();
                acc.decls.push(name);
                acc.pending_doc = Option::None;
                proof {
                    assert(acc.decls.deep_view() =~= st0.decls.push(
                        trimmed(t.skip(8).drop_last()),
                    ));
                    assert(acc_view(*acc) =~= line_step(st0, line));
                }
            } else {
                acc.failed = true;
                proof {
                    assert(acc_view(*acc) =~= line_step(st0, line));
                }
            }
        } else {
            acc.failed = true;
            proof {
                assert(acc_view(*acc) =~= line_step(st0, line));
            }
        }
    } else if match_at(s, a, b, "pub struct ") {
        let e = ident_end(s, a + 11, b);
        proof {
            assert(t.skip(11) =~= s@.subrange(a + 11, b as int));
            assert(leading_ident(t.skip(11)) =~= s@.subrange(a + 11, e as int));
        }
        if e > a + 11 {
            let name = s.substring_char(a + 11, e).to_owned();
            let d = clone_opt_string(&acc.pending_doc);
            acc.struct_names.push(name);
            acc.struct_docs.push(d);
            acc.pending_doc = Option::None;
            proof {
                assert(zip_items(acc.struct_names.deep_view(), acc.struct_docs.deep_view())
                    =~= st0.structs.push(
                    ItemDecl { name: leading_ident(t.skip(11)), doc: st0.pending_doc },
                ));
                assert(acc_view(*acc) =~= line_step(st0, line));
            }
        } else {
            acc.failed = true;
            proof {
                assert(acc_view(*acc) =~= line_step(st0, line));
            }
        }
    } else if match_at(s, a, b, "pub enum ") {
        let e = ident_end(s, a + 9, b);
        proof {
            assert(t.skip(9) =~= s@.subrange(a + 9, b as int));
            assert(leading_ident(t.skip(9)) =~= s@.subrange(a + 9, e as int));
        }
        if e > a + 9 {
            let name = s.substring_char(a + 9, e).to_owned();
            let d = clone_opt_string(&acc.pending_doc);
            acc.enum_names.push(name);
            acc.enum_docs.push(d);
            acc.pending_doc = Option::None;
            proof {
                assert(zip_items(acc.enum_names.deep_view(), acc.enum_docs.deep_view())
                    =~= st0.enums.push(
                    ItemDecl { name: leading_ident(t.skip(9)), doc: st0.pending_doc },
                ));
                assert(acc_view(*acc) =~= line_step(st0, line));
            }
        } else {
            acc.failed = true;
            proof {
                assert(acc_view(*acc) =~= line_step(st0, line));
            }
        }
    } else if match_at(s, a, b, "pub fn ") {
        let e = ident_end(s, a + 7, b);
        proof {
            assert(t.skip(7) =~= s@.subrange(a + 7, b as int));
            assert(leading_ident(t.skip(7)) =~= s@.subrange(a + 7, e as int));
        }
        if e > a + 7 {
            let name = s.substring_char(a + 7, e).to_owned();
            let d = clone_opt_string(&acc.pending_doc);
            acc.fn_names.push(name);
            acc.fn_docs.push(d);
            acc.pending_doc = Option::None;
            proof {
                assert(zip_items(acc.fn_names.deep_view(), acc.fn_docs.deep_view())
                    =~= st0.functions.push(
                    ItemDecl { name: leading_ident(t.skip(7)), doc: st0.pending_doc },
                ));
                assert(acc_view(*acc) =~= line_step(st0, line));
            }
        } else {
            acc.failed = true;
            proof {
                assert(acc_view(*acc) =~= line_step(st0, line));
            }
        }
    } else {
        acc.pending_doc = Option::None;
        proof {
            assert(acc_view(*acc) =~= line_step(st0, line));
        }
    }
}

/// Runs the extraction over all of `text`.
fn run_extraction(text: &str) -> (acc: Acc)
    ensures
        acc_wf(acc),
        acc_view(acc) == extract(text@),
{
    let n = text.unicode_len();
    let mut acc = Acc {
        failed: false,
        module_doc: Option::None,
        pending_doc: Option::None,
        decls: Vec::new(),
        struct_names: Vec::new(),
        struct_docs: Vec::new(),
        enum_names: Vec::new(),
        enum_docs: Vec::new(),
        fn_names: Vec::new(),
        fn_docs: Vec::new(),
    };
    proof {
        assert(acc_view(acc) =~= init_extraction());
        assert(text@.skip(0) =~= text@);
        assert(text@.subrange(0, 0) =~= Seq::<char>::empty());
    }
    let mut i: usize = 0;
    let mut line_start: usize = 0;
    while i < n
        invariant
            acc_wf(acc),
            line_start <= i <= n,
            n == text@.len(),
            ext_chars(
                text@.skip(i as int),
                text@.subrange(line_start as int, i as int),
                acc_view(acc),
            ) == extract(text@),
        decreases n - i,
    {
        let c = text.get_char(i);
        if c == '\n' {
            step_line(&mut acc, text, line_start, i);
            proof {
                assert(text@.skip(i as int)[0] == '\n');
                assert(text@.skip(i as int).skip(1) =~= text@.skip(i + 1));
                assert(text@.subrange(i + 1, i + 1) =~= Seq::<char>::empty());
            }
            i = i + 1;
            line_start = i;
        } else {
            proof {
                assert(text@.skip(i as int)[0] == c);
                assert(text@.skip(i as int).skip(1) =~= text@.skip(i + 1));
                assert(text@.subrange(line_start as int, i as int).push(c) =~= text@.subrange(
                    line_start as int,
                    i + 1,
                ));
            }
            i = i + 1;
        }
    }
    proof {
        assert(text@.skip(n as int) =~= Seq::<char>::empty());
    }
    step_line(&mut acc, text, line_start, n);
    acc
}

pub(crate) fn clone_strings(v: &Vec<String>) -> (r: Vec<String>)
    ensures
        r.deep_view() == v.deep_view(),
{
    let mut r: Vec<String> = Vec::new();
    let mut i: usize = 0;
    while i < v.len()
        invariant
            i <= v.len(),
            r.len() == i,
            forall|j: int| 0 <= j < i ==> r.deep_view()[j] == v.deep_view()[j],
        decreases v.len() - i,
    {
        let x = v[i].clone();
        r.push(x);
        i = i + 1;
    }
    proof {
        assert(r.deep_view() =~= v.deep_view());
    }
    r
}

/// Failure of the declaration extractor, carrying the offending file for
/// diagnostics.
#[derive(Debug, Clone)]
pub struct ParseError {
    pub file: Option<String>,
}

/// What a successful parse hands back for the file `file` with ancestor
/// path `prefix` and content `text`: the module descriptor carries the
/// extracted docstring and declarations under the given path, and every
/// item carries the prefix extended by its own name.
pub open spec fn parse_gives(
    m: Module,
    ss: Seq<Struct>,
    es: Seq<Enum>,
    fs: Seq<Function>,
    file: Option<Seq<char>>,
    prefix: Seq<Seq<char>>,
    text: Seq<char>,
) -> bool {
    let e = extract(text);
    &&& !e.failed
    &&& m.file.deep_view() == file
    &&& m.path.deep_view() == prefix
    &&& m.docstring.deep_view() == e.module_doc
    &&& m.declarations.deep_view() == e.decls
    &&& ss.len() == e.structs.len()
    &&& forall|i: int| 0 <= i < ss.len() ==> {
        &&& (#[trigger] ss[i]).path.deep_view() == prefix.push(e.structs[i].name)
        &&& ss[i].docstring.deep_view() == e.structs[i].doc
        &&& ss[i].fields.len() == 0
    }
    &&& es.len() == e.enums.len()
    &&& forall|i: int| 0 <= i < es.len() ==> {
        &&& (#[trigger] es[i]).path.deep_view() == prefix.push(e.enums[i].name)
        &&& es[i].docstring.deep_view() == e.enums[i].doc
        &&& es[i].variants.len() == 0
    }
    &&& fs.len() == e.functions.len()
    &&& forall|i: int| 0 <= i < fs.len() ==> {
        &&& (#[trigger] fs[i]).path.deep_view() == prefix.push(e.functions[i].name)
        &&& fs[i].docstring.deep_view() == e.functions[i].doc
    }
}

fn build_structs(prefix: &Vec<String>, names: &Vec<String>, docs: &Vec<Option<String>>) -> (r: Vec<
    Struct,
>)
    requires
        names.len() == docs.len(),
    ensures
        r.len() == names.len(),
        forall|i: int| 0 <= i < r.len() ==> {
            &&& (#[trigger] r@[i]).path.deep_view() == prefix.deep_view().push(
                names.deep_view()[i],
            )
            &&& r@[i].docstring.deep_view() == docs.deep_view()[i]
            &&& r@[i].fields.len() == 0
        },
{
    let mut r: Vec<Struct> = Vec::new();
    let mut i: usize = 0;
    while i < names.len()
        invariant
            i <= names.len() == docs.len(),
            r.len() == i,
            forall|j: int| 0 <= j < i ==> {
                &&& (#[trigger] r@[j]).path.deep_view() == prefix.deep_view().push(
                    names.deep_view()[j],
                )
                &&& r@[j].docstring.deep_view() == docs.deep_view()[j]
                &&& r@[j].fields.len() == 0
            },
        decreases names.len() - i,
    {
        let mut path = clone_strings(prefix);
        path.push(names[i].clone());
        proof {
            assert(path.deep_view() =~= prefix.deep_view().push(names.deep_view()[i as int]));
        }
        r.push(Struct { path, docstring: clone_opt_string(&docs[i]), fields: Vec::new() });
        i = i + 1;
    }
    r
}

fn build_enums(prefix: &Vec<String>, names: &Vec<String>, docs: &Vec<Option<String>>) -> (r: Vec<
    Enum,
>)
    requires
        names.len() == docs.len(),
    ensures
        r.len() == names.len(),
        forall|i: int| 0 <= i < r.len() ==> {
            &&& (#[trigger] r@[i]).path.deep_view() == prefix.deep_view().push(
                names.deep_view()[i],
            )
            &&& r@[i].docstring.deep_view() == docs.deep_view()[i]
            &&& r@[i].variants.len() == 0
        },
{
    let mut r: Vec<Enum> = Vec::new();
    let mut i: usize = 0;
    while i < names.len()
        invariant
            i <= names.len() == docs.len(),
            r.len() == i,
            forall|j: int| 0 <= j < i ==> {
                &&& (#[trigger] r@[j]).path.deep_view() == prefix.deep_view().push(
                    names.deep_view()[j],
                )
                &&& r@[j].docstring.deep_view() == docs.deep_view()[j]
                &&& r@[j].variants.len() == 0
            },
        decreases names.len() - i,
    {
        let mut path = clone_strings(prefix);
        path.push(names[i].clone());
        proof {
            assert(path.deep_view() =~= prefix.deep_view().push(names.deep_view()[i as int]));
        }
        r.push(Enum { path, docstring: clone_opt_string(&docs[i]), variants: Vec::new() });
        i = i + 1;
    }
    r
}

fn build_functions(prefix: &Vec<String>, names: &Vec<String>, docs: &Vec<Option<String>>) -> (r:
    Vec<Function>)
    requires
        names.len() == docs.len(),
    ensures
        r.len() == names.len(),
        forall|i: int| 0 <= i < r.len() ==> {
            &&& (#[trigger] r@[i]).path.deep_view() == prefix.deep_view().push(
                names.deep_view()[i],
            )
            &&& r@[i].docstring.deep_view() == docs.deep_view()[i]
        },
{
    let mut r: Vec<Function> = Vec::new();
    let mut i: usize = 0;
    while i < names.len()
        invariant
            i <= names.len() == docs.len(),
            r.len() == i,
            forall|j: int| 0 <= j < i ==> {
                &&& (#[trigger] r@[j]).path.deep_view() == prefix.deep_view().push(
                    names.deep_view()[j],
                )
                &&& r@[j].docstring.deep_view() == docs.deep_view()[j]
            },
        decreases names.len() - i,
    {
        let mut path = clone_strings(prefix);
        path.push(names[i].clone());
        proof {
            assert(path.deep_view() =~= prefix.deep_view().push(names.deep_view()[i as int]));
        }
        r.push(Function { path, docstring: clone_opt_string(&docs[i]) });
        i = i + 1;
    }
    r
}

impl Module {
    /// Extracts from `text` the module rooted at `prefix` together with the
    /// structs, enums and functions declared directly in it. `file` is
    /// recorded in the module descriptor (and in the error) for
    /// diagnostics only. Fails exactly when the text holds a malformed
    /// public declaration.
    pub fn parse(file: Option<&str>, prefix: &Vec<String>, text: &str) -> (r: Result<
        (Module, Vec<Struct>, Vec<Enum>, Vec<Function>),
        ParseError,
    >)
        ensures
            match r {
                Result::Ok(parts) => parse_gives(
                    parts.0,
                    parts.1@,
                    parts.2@,
                    parts.3@,
                    file.deep_view(),
                    prefix.deep_view(),
                    text@,
                ),
                Result::Err(e) => extract(text@).failed && e.file.deep_view() == file.deep_view(),
            },
    {
        let acc = run_extraction(text);
        let owned_file = match file {
            Option::None => Option::None,
            Option::Some(x) => Option::Some(x.to_owned()),
        };
        if acc.failed {
            return Result::Err(ParseError { file: owned_file });
        }
        let ss = build_structs(prefix, &acc.struct_names, &acc.struct_docs);
        let es = build_enums(prefix, &acc.enum_names, &acc.enum_docs);
        let fs = build_functions(prefix, &acc.fn_names, &acc.fn_docs);
        let m = Module {
            file: owned_file,
            path: clone_strings(prefix),
            docstring: acc.module_doc,
            declarations: acc.decls,
        };
        Result::Ok((m, ss, es, fs))
    }
}

} // verus!
