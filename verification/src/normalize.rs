//! The code normalizer: rewrites a free-form snippet so that a trailing
//! expression statement becomes the entry function's return value.
//!
//! The transform is line-oriented, not a real parser. The snippet is
//! trimmed, split into lines, and every line but the last is copied
//! verbatim (with a trailing carriage return dropped, as line splitting
//! does). The last line is rewritten to `return <line>` exactly when its
//! trimmed form ends in a semicolon and does not begin with one of a fixed
//! set of statement keywords; otherwise it is copied too, and the entry
//! function yields an absent result.
//!
//! Known limitation, kept deliberately: the keyword guard is a plain
//! prefix test, so a last line whose first identifier merely starts with a
//! guarded keyword (such as `constant;`) is treated as guarded and not
//! rewritten, and multi-line trailing expressions are not recognized.

use vstd::prelude::*;

verus! {

/// The whitespace characters the normalizer trims.
pub open spec fn is_ws(c: char) -> bool {
    c == ' ' || c == '\t' || c == '\n' || c == '\r'
}

/// The sequence with its leading whitespace removed.
pub open spec fn trim_start(s: Seq<char>) -> Seq<char>
    decreases s.len(),
{
    if s.len() > 0 && is_ws(s[0]) {
        trim_start(s.drop_first())
    } else {
        s
    }
}

/// The sequence with its trailing whitespace removed.
pub open spec fn trim_end(s: Seq<char>) -> Seq<char>
    decreases s.len(),
{
    if s.len() > 0 && is_ws(s.last()) {
        trim_end(s.drop_last())
    } else {
        s
    }
}

/// The sequence with leading and trailing whitespace removed.
pub open spec fn spec_trim(s: Seq<char>) -> Seq<char> {
    trim_end(trim_start(s))
}

/// Whether the sequence contains a line break.
pub open spec fn has_nl(s: Seq<char>) -> bool {
    exists|i: int| 0 <= i < s.len() && s[i] == '\n'
}

/// The index of the first line break, or the length if there is none.
pub open spec fn first_nl(s: Seq<char>) -> int
    decreases s.len(),
{
    if s.len() == 0 {
        0
    } else if s[0] == '\n' {
        0
    } else {
        1 + first_nl(s.drop_first())
    }
}

/// A line with a trailing carriage return dropped, as line splitting drops it.
pub open spec fn strip_cr(l: Seq<char>) -> Seq<char> {
    if l.len() > 0 && l.last() == '\r' {
        l.drop_last()
    } else {
        l
    }
}

/// Whether `t` begins with `p`.
pub open spec fn starts_with(t: Seq<char>, p: Seq<char>) -> bool {
    t.len() >= p.len() && (forall|k: int| 0 <= k < p.len() ==> t[k] == p[k])
}

/// Whether the trimmed last line begins with a statement keyword that must
/// not be turned into a return. The test is a plain prefix test.
pub open spec fn spec_keyword_guarded(t: Seq<char>) -> bool {
    ||| starts_with(t, "return"@)
    ||| starts_with(t, "const"@)
    ||| starts_with(t, "let"@)
    ||| starts_with(t, "var"@)
    ||| starts_with(t, "function"@)
    ||| starts_with(t, "class"@)
    ||| starts_with(t, "interface"@)
    ||| starts_with(t, "type"@)
    ||| starts_with(t, "if"@)
    ||| starts_with(t, "for"@)
    ||| starts_with(t, "while"@)
    ||| starts_with(t, "switch"@)
}

/// Whether the trimmed form of a last line is rewritten to a return.
pub open spec fn spec_rewrites(lt: Seq<char>) -> bool {
    lt.len() > 0 && lt.last() == ';' && !spec_keyword_guarded(lt)
}

/// What the last line of the body contributes: a `return` of its trimmed
/// form when it is a bare expression statement, otherwise the line itself.
/// Either way the line is newline-terminated.
pub open spec fn spec_last_line(l: Seq<char>) -> Seq<char> {
    let lt = spec_trim(l);
    if spec_rewrites(lt) {
        "return "@ + lt + "\n"@
    } else {
        strip_cr(l) + "\n"@
    }
}

/// The normalized body of a trimmed, non-blank snippet: every line up to
/// the last copied verbatim and newline-terminated, the last line handled
/// by [`spec_last_line`].
pub open spec fn spec_body(t: Seq<char>) -> Seq<char>
    decreases t.len(),
    via spec_body_decreases
{
    if has_nl(t) {
        strip_cr(t.take(first_nl(t))) + "\n"@ + spec_body(t.skip(first_nl(t) + 1))
    } else {
        spec_last_line(t)
    }
}

#[via_fn]
proof fn spec_body_decreases(t: Seq<char>) {
    if has_nl(t) {
        lemma_first_nl(t);
    }
}

/// The whole normalization: a snippet that is blank after trimming is
/// returned unchanged; otherwise its trimmed form is normalized line by
/// line.
pub open spec fn spec_normalize(s: Seq<char>) -> Seq<char> {
    if spec_trim(s).len() == 0 {
        s
    } else {
        spec_body(spec_trim(s))
    }
}

/// The last line of a body: the segment after the final line break.
pub open spec fn last_line(t: Seq<char>) -> Seq<char>
    decreases t.len(),
    via last_line_decreases
{
    if has_nl(t) {
        last_line(t.skip(first_nl(t) + 1))
    } else {
        t
    }
}

#[via_fn]
proof fn last_line_decreases(t: Seq<char>) {
    if has_nl(t) {
        lemma_first_nl(t);
    }
}

/// Every line before the last, carriage returns dropped, each
/// newline-terminated.
pub open spec fn spec_init_lines(t: Seq<char>) -> Seq<char>
    decreases t.len(),
    via spec_init_lines_decreases
{
    if has_nl(t) {
        strip_cr(t.take(first_nl(t))) + "\n"@ + spec_init_lines(t.skip(first_nl(t) + 1))
    } else {
        Seq::empty()
    }
}

#[via_fn]
proof fn spec_init_lines_decreases(t: Seq<char>) {
    if has_nl(t) {
        lemma_first_nl(t);
    }
}

/// The normalized body is the verbatim copy of every line before the last,
/// followed by whatever the last line contributes.
pub proof fn lemma_body_structure(t: Seq<char>)
    ensures
        spec_body(t) == spec_init_lines(t) + spec_last_line(last_line(t)),
    decreases t.len(),
{
    if has_nl(t) {
        lemma_first_nl(t);
        let rest = t.skip(first_nl(t) + 1);
        lemma_body_structure(rest);
        assert(strip_cr(t.take(first_nl(t))) + "\n"@ + (spec_init_lines(rest) + spec_last_line(
            last_line(rest),
        )) =~= spec_init_lines(t) + spec_last_line(last_line(t)));
    } else {
        assert(Seq::empty() + spec_last_line(t) =~= spec_last_line(t));
    }
}

/// A last line that a guarded statement keyword introduces is never
/// rewritten: the whole snippet is copied line for line, so an already
/// return-terminated snippet passes through the normalizer unchanged in
/// its final line.
pub proof fn lemma_guarded_last_line_copied(s: Seq<char>)
    requires
        spec_trim(s).len() > 0,
        spec_keyword_guarded(spec_trim(last_line(spec_trim(s)))),
    ensures
        spec_normalize(s) == spec_init_lines(spec_trim(s)) + strip_cr(last_line(spec_trim(s)))
            + "\n"@,
{
    let t = spec_trim(s);
    lemma_body_structure(t);
    assert(spec_init_lines(t) + (strip_cr(last_line(t)) + "\n"@) =~= spec_init_lines(t) + strip_cr(
        last_line(t),
    ) + "\n"@);
}

/// A last line that does not end in the statement terminator is not
/// rewritten either: the snippet is copied line for line and the entry
/// function yields an absent result.
pub proof fn lemma_unterminated_last_line_copied(s: Seq<char>)
    requires
        spec_trim(s).len() > 0,
        spec_trim(last_line(spec_trim(s))).len() == 0 || spec_trim(last_line(spec_trim(s))).last()
            != ';',
    ensures
        spec_normalize(s) == spec_init_lines(spec_trim(s)) + strip_cr(last_line(spec_trim(s)))
            + "\n"@,
{
    let t = spec_trim(s);
    lemma_body_structure(t);
    assert(spec_init_lines(t) + (strip_cr(last_line(t)) + "\n"@) =~= spec_init_lines(t) + strip_cr(
        last_line(t),
    ) + "\n"@);
}

/// The trailing-expression rewrite: when the trimmed last line ends in the
/// statement terminator and no guarded keyword introduces it, the
/// normalizer turns exactly that line into the entry function's return.
pub proof fn lemma_trailing_expression_returned(s: Seq<char>)
    requires
        spec_trim(s).len() > 0,
        spec_rewrites(spec_trim(last_line(spec_trim(s)))),
    ensures
        spec_normalize(s) == spec_init_lines(spec_trim(s)) + "return "@ + spec_trim(
            last_line(spec_trim(s)),
        ) + "\n"@,
{
    let t = spec_trim(s);
    lemma_body_structure(t);
    assert(spec_init_lines(t) + ("return "@ + spec_trim(last_line(t)) + "\n"@) =~= spec_init_lines(
        t,
    ) + "return "@ + spec_trim(last_line(t)) + "\n"@);
}

/// A normalized body of a text that does not end in whitespace ends in a
/// line break preceded by a non-whitespace character.
proof fn lemma_body_shape(u: Seq<char>)
    requires
        u.len() > 0,
        !is_ws(u.last()),
    ensures
        spec_body(u).len() >= 2,
        spec_body(u).last() == '\n',
        !is_ws(spec_body(u)[spec_body(u).len() - 2]),
    decreases u.len(),
{
    reveal_strlit("\n");
    reveal_strlit("return ");
    if has_nl(u) {
        lemma_first_nl(u);
        let i = first_nl(u);
        let rest = u.skip(i + 1);
        assert(rest.len() > 0) by {
            if i + 1 == u.len() {
                assert(u.last() == '\n');
            }
        }
        assert(rest.last() == u.last());
        lemma_body_shape(rest);
        let a = strip_cr(u.take(i)) + "\n"@;
        assert(spec_body(u) == a + spec_body(rest));
        assert(spec_body(u).last() == spec_body(rest).last());
        assert(spec_body(u)[spec_body(u).len() - 2] == spec_body(rest)[spec_body(rest).len() - 2]);
    } else {
        let lt = spec_trim(u);
        if spec_rewrites(lt) {
            let o = "return "@ + lt + "\n"@;
            assert(spec_body(u) == o);
            assert(o.last() == '\n');
            assert(o[o.len() - 2] == lt.last());
        } else {
            assert(u.last() != '\r');
            assert(strip_cr(u) == u);
            let o = u + "\n"@;
            assert(spec_body(u) == o);
            assert(o.last() == '\n');
            assert(o[o.len() - 2] == u.last());
        }
    }
}

/// A normalized body of a text that neither starts nor ends in whitespace
/// starts with a non-whitespace character.
proof fn lemma_body_first(u: Seq<char>)
    requires
        u.len() > 0,
        !is_ws(u[0]),
        !is_ws(u.last()),
    ensures
        spec_body(u).len() > 0,
        !is_ws(spec_body(u)[0]),
{
    reveal_strlit("\n");
    reveal_strlit("return ");
    if has_nl(u) {
        lemma_first_nl(u);
        let i = first_nl(u);
        assert(i >= 1) by {
            assert(u[0] != '\n');
        }
        let l1 = u.take(i);
        assert(l1[0] == u[0]);
        assert(l1[0] != '\r');
        assert(strip_cr(l1).len() > 0);
        assert(strip_cr(l1)[0] == u[0]);
        assert(spec_body(u)[0] == u[0]);
    } else {
        let lt = spec_trim(u);
        if spec_rewrites(lt) {
            assert(spec_body(u)[0] == "return "@[0]);
            assert(!is_ws('r'));
        } else {
            assert(u.last() != '\r');
            assert(strip_cr(u) == u);
            assert(spec_body(u)[0] == u[0]);
        }
    }
}

/// Normalizing a body a second time changes nothing: dropping the final
/// line break of a normalized body (which is what trimming does to it) and
/// normalizing again gives the same body. Lines that end in two carriage
/// returns are the one exception and are excluded.
proof fn lemma_body_idem(u: Seq<char>)
    requires
        u.len() > 0,
        !is_ws(u.last()),
        no_doubled_cr(u),
    ensures
        spec_body(spec_body(u).drop_last()) == spec_body(u),
    decreases u.len(),
{
    reveal_strlit("\n");
    reveal_strlit("return");
    reveal_strlit("return ");
    if has_nl(u) {
        lemma_first_nl(u);
        let i = first_nl(u);
        let l1 = u.take(i);
        let rest = u.skip(i + 1);
        assert(rest.len() > 0) by {
            if i + 1 == u.len() {
                assert(u.last() == '\n');
            }
        }
        assert(rest.last() == u.last());
        assert(no_doubled_cr(rest)) by {
            assert forall|k: int|
                2 <= k < rest.len() && #[trigger] rest[k] == '\n' implies !(rest[k - 1] == '\r'
                && rest[k - 2] == '\r') by {
                assert(u[k + i + 1] == '\n');
            }
        }
        lemma_body_idem(rest);
        lemma_body_shape(rest);
        let a = strip_cr(l1);
        // A line can end in at most one carriage return, so stripping it
        // once is stripping it fully.
        assert(a.len() > 0 ==> a.last() != '\r') by {
            if l1.len() > 0 && l1.last() == '\r' {
                assert(u[i - 1] == '\r');
                if l1.len() >= 2 && l1.drop_last().last() == '\r' {
                    assert(u[i - 2] == '\r');
                    assert(u[i] == '\n');
                    assert(false);
                }
            }
        }
        assert(strip_cr(a) == a);
        assert(forall|k: int| 0 <= k < a.len() ==> a[k] == l1[k]);
        assert(forall|k: int| 0 <= k < a.len() ==> a[k] != '\n');
        let o = spec_body(u);
        let b = spec_body(rest);
        assert(o == a + "\n"@ + b);
        let v = o.drop_last();
        assert(v =~= a + "\n"@ + b.drop_last());
        assert(v[a.len() as int] == '\n');
        lemma_first_nl(v);
        assert(first_nl(v) == a.len()) by {
            assert(forall|k: int| 0 <= k < a.len() ==> v[k] == a[k] && v[k] != '\n');
            if first_nl(v) < a.len() {
                assert(v[first_nl(v)] == '\n');
            }
            if first_nl(v) > a.len() {
                assert(v[a.len() as int] != '\n');
            }
        }
        assert(has_nl(v)) by {
            assert(b.len() >= 2);
            assert(0 <= a.len() < v.len());
        }
        assert(v.take(a.len() as int) =~= a);
        assert(v.skip(a.len() as int + 1) =~= b.drop_last());
        assert(spec_body(v) == strip_cr(a) + "\n"@ + spec_body(b.drop_last()));
        assert(spec_body(v) == a + "\n"@ + b);
        assert(a + "\n"@ + b == o);
    } else {
        let lt = spec_trim(u);
        lemma_trim_props(u);
        if spec_rewrites(lt) {
            let o = "return "@ + lt + "\n"@;
            assert(spec_body(u) == o);
            let v = o.drop_last();
            assert(v =~= "return "@ + lt);
            // The rewritten line is itself introduced by the keyword, so a
            // second pass copies it verbatim.
            assert(!has_nl(v)) by {
                assert(!has_nl(lt));
                if has_nl(v) {
                    let k = choose|k: int| 0 <= k < v.len() && v[k] == '\n';
                    if k < 7 {
                        assert("return "@[k] != '\n');
                    } else {
                        assert(lt[k - 7] == '\n');
                    }
                }
            }
            assert(v.len() == 7 + lt.len());
            assert(!is_ws(v[0]));
            assert(v.last() == ';') by {
                assert(v[7 + lt.len() - 1] == lt.last());
            }
            assert(trim_start(v) == v);
            assert(trim_end(v) == v);
            assert(spec_trim(v) == v);
            assert(spec_keyword_guarded(v)) by {
                assert forall|k: int| 0 <= k < 6 implies v[k] == "return"@[k] by {
                    assert(v[k] == "return "@[k]);
                }
                assert(starts_with(v, "return"@));
            }
            assert(!spec_rewrites(v));
            assert(v.last() != '\r');
            assert(strip_cr(v) == v);
            assert(spec_body(v) == strip_cr(v) + "\n"@);
            assert(v + "\n"@ =~= o);
        } else {
            assert(u.last() != '\r');
            assert(strip_cr(u) == u);
            let o = u + "\n"@;
            assert(spec_body(u) == o);
            assert(o.drop_last() =~= u);
        }
    }
}

/// Normalizing is idempotent: running the normalizer on its own output
/// changes nothing. The one exception, excluded here, is an input with a
/// line that ends in two carriage returns: line splitting consumes one per
/// pass, so a second pass still finds one to consume.
pub proof fn lemma_normalize_idempotent(s: Seq<char>)
    requires
        no_doubled_cr(spec_trim(s)),
    ensures
        spec_normalize(spec_normalize(s)) == spec_normalize(s),
{
    reveal_strlit("\n");
    let t = spec_trim(s);
    if t.len() == 0 {
        assert(spec_normalize(s) == s);
    } else {
        lemma_trim_props(s);
        let o = spec_body(t);
        lemma_body_first(t);
        lemma_body_shape(t);
        assert(spec_normalize(s) == o);
        lemma_trim_start_at(o, 0);
        assert(trim_start(o) =~= o);
        lemma_trim_end_at(o, o.len() - 1);
        assert(trim_end(o) =~= o.drop_last());
        assert(spec_trim(o) == o.drop_last());
        assert(spec_trim(o).len() > 0);
        lemma_body_idem(t);
        assert(spec_normalize(o) == spec_body(o.drop_last()));
        assert(spec_body(o.drop_last()) == o);
    }
}

/// `first_nl` is the index of the first line break: nothing before it is
/// one, and it points at one unless there is none at all.
proof fn lemma_first_nl(s: Seq<char>)
    ensures
        0 <= first_nl(s) <= s.len(),
        forall|k: int| 0 <= k < first_nl(s) ==> s[k] != '\n',
        first_nl(s) < s.len() ==> s[first_nl(s)] == '\n',
        has_nl(s) ==> first_nl(s) < s.len(),
    decreases s.len(),
{
    if s.len() == 0 {
    } else if s[0] == '\n' {
    } else {
        lemma_first_nl(s.drop_first());
        assert(forall|k: int|
            1 <= k < first_nl(s) ==> s[k] == s.drop_first()[k - 1] && s.drop_first()[k - 1]
                != '\n');
        if has_nl(s) {
            let i = choose|i: int| 0 <= i < s.len() && s[i] == '\n';
            assert(s.drop_first()[i - 1] == '\n');
            assert(has_nl(s.drop_first()));
        }
    }
}

/// If everything below `lo` is whitespace and `lo` is not past a
/// non-whitespace character, trimming the start removes exactly `lo`
/// characters.
proof fn lemma_trim_start_at(s: Seq<char>, lo: int)
    requires
        0 <= lo <= s.len(),
        forall|k: int| 0 <= k < lo ==> is_ws(s[k]),
        lo < s.len() ==> !is_ws(s[lo]),
    ensures
        trim_start(s) =~= s.subrange(lo, s.len() as int),
    decreases lo,
{
    if lo == 0 {
        if s.len() > 0 && is_ws(s[0]) {
            assert(false);
        }
        assert(trim_start(s) =~= s.subrange(0, s.len() as int));
    } else {
        assert(is_ws(s[0]));
        let d = s.drop_first();
        assert(forall|k: int| 0 <= k < lo - 1 ==> d[k] == s[k + 1] && is_ws(s[k + 1]));
        lemma_trim_start_at(d, lo - 1);
        assert(trim_start(s) == trim_start(d));
        assert(d.subrange(lo - 1, d.len() as int) =~= s.subrange(lo, s.len() as int));
    }
}

/// If everything from `hi` on is whitespace and the character before `hi`
/// (if any) is not, trimming the end keeps exactly the first `hi`
/// characters.
proof fn lemma_trim_end_at(s: Seq<char>, hi: int)
    requires
        0 <= hi <= s.len(),
        forall|k: int| hi <= k < s.len() ==> is_ws(s[k]),
        hi > 0 ==> !is_ws(s[hi - 1]),
    ensures
        trim_end(s) =~= s.subrange(0, hi),
    decreases s.len() - hi,
{
    if hi == s.len() {
        if s.len() > 0 && is_ws(s.last()) {
            assert(false);
        }
        assert(trim_end(s) =~= s.subrange(0, hi));
    } else {
        assert(is_ws(s.last()));
        let d = s.drop_last();
        lemma_trim_end_at(d, hi);
        assert(trim_end(s) == trim_end(d));
        assert(d.subrange(0, hi) =~= s.subrange(0, hi));
    }
}

/// No line of the text ends in two carriage returns. Line splitting
/// consumes one trailing carriage return per line and pass, so on a line
/// that ends in several a second pass would see a different line than the
/// first: these are exactly the inputs on which normalizing twice differs
/// from normalizing once.
pub open spec fn no_doubled_cr(t: Seq<char>) -> bool {
    forall|k: int|
        2 <= k < t.len() && #[trigger] t[k] == '\n' ==> !(t[k - 1] == '\r' && t[k - 2] == '\r')
}

/// A nonempty trimmed result neither starts nor ends in whitespace, keeps
/// the first character trimming the start produced, and contains a line
/// break only if the input did.
proof fn lemma_trim_start_props(u: Seq<char>)
    ensures
        trim_start(u).len() > 0 ==> !is_ws(trim_start(u)[0]),
        !has_nl(u) ==> !has_nl(trim_start(u)),
    decreases u.len(),
{
    if u.len() > 0 && is_ws(u[0]) {
        lemma_trim_start_props(u.drop_first());
        if has_nl(u.drop_first()) {
            let i = choose|i: int| 0 <= i < u.drop_first().len() && u.drop_first()[i] == '\n';
            assert(u[i + 1] == '\n');
        }
    }
}

/// A nonempty end-trimmed result does not end in whitespace, keeps the
/// input's first character, and contains a line break only if the input did.
proof fn lemma_trim_end_props(u: Seq<char>)
    ensures
        trim_end(u).len() > 0 ==> !is_ws(trim_end(u).last()),
        trim_end(u).len() > 0 ==> trim_end(u)[0] == u[0],
        !has_nl(u) ==> !has_nl(trim_end(u)),
    decreases u.len(),
{
    if u.len() > 0 && is_ws(u.last()) {
        lemma_trim_end_props(u.drop_last());
        if has_nl(u.drop_last()) {
            let i = choose|i: int| 0 <= i < u.drop_last().len() && u.drop_last()[i] == '\n';
            assert(u[i] == '\n');
        }
    }
}

/// A nonempty trimmed text neither starts nor ends in whitespace, and
/// contains a line break only if the input did.
proof fn lemma_trim_props(u: Seq<char>)
    ensures
        spec_trim(u).len() > 0 ==> !is_ws(spec_trim(u)[0]),
        spec_trim(u).len() > 0 ==> !is_ws(spec_trim(u).last()),
        !has_nl(u) ==> !has_nl(spec_trim(u)),
{
    lemma_trim_start_props(u);
    lemma_trim_end_props(trim_start(u));
}

/// Reports whether a character is normalizer whitespace.
fn is_ws_char(c: char) -> (b: bool)
    ensures
        b == is_ws(c),
{
    c == ' ' || c == '\t' || c == '\n' || c == '\r'
}

/// Reports whether the slice of `code` between `lo` and `hi` begins with
/// the pattern.
fn starts_with_at(code: &str, lo: usize, hi: usize, pat: &str) -> (b: bool)
    requires
        lo <= hi <= code@.len(),
    ensures
        b == starts_with(code@.subrange(lo as int, hi as int), pat@),
{
    let plen = pat.unicode_len();
    if hi - lo < plen {
        return false;
    }
    let mut k: usize = 0;
    while k < plen
        invariant
            k <= plen,
            plen <= hi - lo,
            lo <= hi <= code@.len(),
            plen == pat@.len(),
            forall|j: int| 0 <= j < k ==> code@[lo + j] == pat@[j],
        decreases plen - k,
    {
        if code.get_char(lo + k) != pat.get_char(k) {
            return false;
        }
        k = k + 1;
    }
    true
}

/// Reports whether the trimmed last line, the slice of `code` between `lo`
/// and `hi`, begins with one of the guarded statement keywords.
fn keyword_guarded_at(code: &str, lo: usize, hi: usize) -> (b: bool)
    requires
        lo <= hi <= code@.len(),
    ensures
        b == spec_keyword_guarded(code@.subrange(lo as int, hi as int)),
{
    starts_with_at(code, lo, hi, "return") || starts_with_at(code, lo, hi, "const")
        || starts_with_at(code, lo, hi, "let") || starts_with_at(code, lo, hi, "var")
        || starts_with_at(code, lo, hi, "function") || starts_with_at(code, lo, hi, "class")
        || starts_with_at(code, lo, hi, "interface") || starts_with_at(code, lo, hi, "type")
        || starts_with_at(code, lo, hi, "if") || starts_with_at(code, lo, hi, "for")
        || starts_with_at(code, lo, hi, "while") || starts_with_at(code, lo, hi, "switch")
}

/// Normalizes a snippet: trims it, copies every line but the last, and
/// turns a trailing bare expression statement into a `return`. A snippet
/// that is blank after trimming comes back unchanged.
pub fn ensure_return_last_expression(code: &str) -> (r: String)
    ensures
        r@ == spec_normalize(code@),
{
    let n = code.unicode_len();
    let ghost s = code@;

    let mut lo: usize = 0;
    while lo < n && is_ws_char(code.get_char(lo))
        invariant
            lo <= n,
            n == s.len(),
            s == code@,
            forall|k: int| 0 <= k < lo ==> is_ws(s[k]),
        decreases n - lo,
    {
        lo = lo + 1;
    }

    if lo == n {
        proof {
            lemma_trim_start_at(s, n as int);
            assert(trim_start(s) =~= Seq::<char>::empty());
            assert(spec_trim(s).len() == 0);
        }
        return String::from_str(code);
    }

    let mut hi: usize = n;
    while hi > lo && is_ws_char(code.get_char(hi - 1))
        invariant
            lo <= hi <= n,
            n == s.len(),
            s == code@,
            lo < n,
            !is_ws(s[lo as int]),
            forall|k: int| hi <= k < n ==> is_ws(s[k]),
        decreases hi,
    {
        hi = hi - 1;
    }
    assert(hi > lo);
    assert(!is_ws(s[hi - 1]));

    let ghost t = s.subrange(lo as int, hi as int);
    proof {
        lemma_trim_start_at(s, lo as int);
        lemma_trim_end_at(s.subrange(lo as int, s.len() as int), hi - lo);
        assert(s.subrange(lo as int, s.len() as int).subrange(0, hi - lo) =~= t);
        assert(spec_trim(s) == t);
        assert(t.len() > 0);
        assert(spec_normalize(s) == spec_body(t));
    }

    let mut out = String::new();
    let mut p = lo;
    loop
        invariant
            lo <= p < hi <= n,
            n == s.len(),
            s == code@,
            hi > lo,
            !is_ws(s[lo as int]),
            !is_ws(s[hi - 1]),
            t == s.subrange(lo as int, hi as int),
            spec_normalize(s) == out@ + spec_body(s.subrange(p as int, hi as int)),
        decreases hi - p,
    {
        let ghost rest = s.subrange(p as int, hi as int);

        let mut q = p;
        while q < hi && code.get_char(q) != '\n'
            invariant
                p <= q <= hi <= n,
                n == s.len(),
                s == code@,
                forall|k: int| p <= k < q ==> s[k] != '\n',
            decreases hi - q,
        {
            q = q + 1;
        }

        if q < hi {
            // A full line [p, q) with its break at q.
            proof {
                lemma_first_nl(rest);
                assert(rest[q - p] == '\n');
                assert(forall|k: int| 0 <= k < q - p ==> rest[k] == s[p + k] && s[p + k] != '\n');
                if first_nl(rest) < q - p {
                    assert(rest[first_nl(rest)] == '\n');
                    assert(false);
                }
                if first_nl(rest) > q - p {
                    assert(rest[q - p] != '\n');
                    assert(false);
                }
                assert(first_nl(rest) == q - p);
                assert(has_nl(rest));
            }
            let seg_end: usize = if q > p && code.get_char(q - 1) == '\r' {
                q - 1
            } else {
                q
            };
            proof {
                assert(rest.take(q - p) =~= s.subrange(p as int, q as int));
                if q > p && s[q - 1] == '\r' {
                    assert(strip_cr(rest.take(q - p)) =~= s.subrange(p as int, q - 1));
                } else {
                    assert(strip_cr(rest.take(q - p)) =~= s.subrange(p as int, q as int));
                }
                assert(strip_cr(rest.take(q - p)) =~= s.subrange(p as int, seg_end as int));
                assert(rest.skip(q - p + 1) =~= s.subrange(q + 1, hi as int));
            }
            let seg = code.substring_char(p, seg_end);
            out.append(seg);
            out.append("\n");
            proof {
                assert(spec_body(rest) == strip_cr(rest.take(first_nl(rest))) + "\n"@
                    + spec_body(rest.skip(first_nl(rest) + 1)));
                assert(out@ + spec_body(s.subrange(q + 1, hi as int)) == spec_normalize(s));
                // The trimmed region cannot end in a line break, so the next
                // line start stays inside it.
                assert(s[q as int] == '\n' && s[hi - 1] != '\n');
                assert(q + 1 < hi);
            }
            p = q + 1;
        } else {
            // The last line [p, hi): no break follows it.
            proof {
                if has_nl(rest) {
                    let i = choose|i: int| 0 <= i < rest.len() && rest[i] == '\n';
                    assert(s[p + i] == '\n');
                    assert(false);
                }
                assert(spec_body(rest) == spec_last_line(rest));
            }
            let mut llo = p;
            while llo < hi && is_ws_char(code.get_char(llo))
                invariant
                    p <= llo <= hi <= n,
                    n == s.len(),
                    s == code@,
                    forall|k: int| p <= k < llo ==> is_ws(s[k]),
                decreases hi - llo,
            {
                llo = llo + 1;
            }
            proof {
                if llo == hi {
                    assert(is_ws(s[hi - 1]));
                    assert(false);
                }
            }
            assert(llo < hi);
            let ghost lt = s.subrange(llo as int, hi as int);
            proof {
                assert(forall|k: int| 0 <= k < llo - p ==> rest[k] == s[p + k] && is_ws(rest[k]));
                assert(llo - p < rest.len() ==> !is_ws(rest[llo - p]));
                lemma_trim_start_at(rest, llo - p);
                assert(rest.subrange(llo - p, rest.len() as int) =~= lt);
                assert(lt.len() > 0);
                assert(!is_ws(lt.last()));
                lemma_trim_end_at(lt, lt.len() as int);
                assert(spec_trim(rest) == lt);
                // The line itself cannot end in a carriage return: that is
                // whitespace, and the global trim removed it.
                assert(strip_cr(rest) =~= rest);
            }
            let last_char = code.get_char(hi - 1);
            let rewrites = last_char == ';' && !keyword_guarded_at(code, llo, hi);
            proof {
                assert(lt.last() == s[hi - 1]);
                assert(rewrites == spec_rewrites(lt));
            }
            if rewrites {
                let seg = code.substring_char(llo, hi);
                out.append("return ");
                out.append(seg);
                out.append("\n");
                proof {
                    assert(spec_last_line(rest) == "return "@ + lt + "\n"@);
                }
            } else {
                let seg = code.substring_char(p, hi);
                out.append(seg);
                out.append("\n");
                proof {
                    assert(spec_last_line(rest) == strip_cr(rest) + "\n"@);
                    assert(strip_cr(rest) + "\n"@ == rest + "\n"@);
                }
            }
            proof {
                assert(out@ == spec_normalize(s));
            }
            return out;
        }
    }
}

} // verus!
