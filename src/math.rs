//! Math markup: `$$...$$` becomes a display-math span, then `$...$` on a
//! single line becomes an inline-math span. Both scans go left to right and
//! take the shortest delimited body, as a regular-expression replacement of
//! `\$\$([^$]+?)\$\$` followed by one of `\$([^$\n]+?)\$` would.
use vstd::prelude::*;
use crate::text::{chars_of, push_char, push_range, push_str};

verus! {

/// The first index at or after `i` holding a `$` (or, when `stop_at_newline`,
/// a line break); `s.len()` when there is none.
pub open spec fn body_end(s: Seq<char>, i: int, stop_at_newline: bool) -> int
    decreases s.len() - i,
{
    if i < 0 || i >= s.len() {
        s.len() as int
    } else if s[i] == '$' || (stop_at_newline && s[i] == '\n') {
        i
    } else {
        body_end(s, i + 1, stop_at_newline)
    }
}

/// `$$body$$` starts at `i`, with a non-empty body free of `$`.
pub open spec fn display_at(s: Seq<char>, i: int) -> bool {
    let k = body_end(s, i + 2, false);
    &&& 0 <= i && i + 1 < s.len()
    &&& s[i] == '$' && s[i + 1] == '$'
    &&& k > i + 2 && k + 1 < s.len()
    &&& s[k + 1] == '$'
}

/// `$body$` starts at `i`, with a non-empty body free of `$` and line breaks.
pub open spec fn inline_at(s: Seq<char>, i: int) -> bool {
    let k = body_end(s, i + 1, true);
    &&& 0 <= i < s.len()
    &&& s[i] == '$'
    &&& k > i + 1 && k < s.len()
    &&& s[k] == '$'
}

pub open spec fn display_span(body: Seq<char>) -> Seq<char> {
    "<span class=\"katex-display\">\\["@ + body + "\\]</span>"@
}

pub open spec fn inline_span(body: Seq<char>) -> Seq<char> {
    "<span class=\"katex\">\\("@ + body + "\\)</span>"@
}

/// The display pass applied to `s` from index `i` on.
pub open spec fn display_from(s: Seq<char>, i: int) -> Seq<char>
    decreases s.len() - i,
{
    if i < 0 || i >= s.len() {
        Seq::empty()
    } else if display_at(s, i) {
        let k = body_end(s, i + 2, false);
        display_span(s.subrange(i + 2, k)) + display_from(s, k + 2)
    } else {
        seq![s[i]] + display_from(s, i + 1)
    }
}

/// The inline pass applied to `s` from index `i` on.
pub open spec fn inline_from(s: Seq<char>, i: int) -> Seq<char>
    decreases s.len() - i,
{
    if i < 0 || i >= s.len() {
        Seq::empty()
    } else if inline_at(s, i) {
        let k = body_end(s, i + 1, true);
        inline_span(s.subrange(i + 1, k)) + inline_from(s, k + 1)
    } else {
        seq![s[i]] + inline_from(s, i + 1)
    }
}

pub open spec fn display_markup(s: Seq<char>) -> Seq<char> {
    display_from(s, 0)
}

pub open spec fn inline_markup(s: Seq<char>) -> Seq<char> {
    inline_from(s, 0)
}

/// Display math first, so that `$$` is never split into two inline matches.
pub open spec fn math_markup(s: Seq<char>) -> Seq<char> {
    inline_markup(display_markup(s))
}

proof fn lemma_body_end_bounds(s: Seq<char>, i: int, nl: bool)
    requires
        0 <= i <= s.len(),
    ensures
        i <= body_end(s, i, nl) <= s.len(),
        forall|m: int| i <= m < body_end(s, i, nl) ==> s[m] != '$' && !(nl && s[m] == '\n'),
        body_end(s, i, nl) < s.len() ==> (s[body_end(s, i, nl)] == '$' || (nl && s[body_end(s, i, nl)] == '\n')),
    decreases s.len() - i,
{
    if i < s.len() && !(s[i] == '$' || (nl && s[i] == '\n')) {
        lemma_body_end_bounds(s, i + 1, nl);
    }
}

/// No `$` (and, for the inline pass, no line break) in `s[i..j]`.
pub open spec fn plain(s: Seq<char>, i: int, j: int, nl: bool) -> bool {
    forall|m: int| i <= m < j ==> s[m] != '$' && !(nl && s[m] == '\n')
}

proof fn lemma_body_end_skips(s: Seq<char>, i: int, j: int, nl: bool)
    requires
        0 <= i <= j <= s.len(),
        plain(s, i, j, nl),
    ensures
        body_end(s, i, nl) == body_end(s, j, nl),
    decreases j - i,
{
    if i < j {
        lemma_body_end_skips(s, i + 1, j, nl);
    }
}

proof fn lemma_display_plain(s: Seq<char>, i: int, j: int)
    requires
        0 <= i <= j <= s.len(),
        plain(s, i, j, false),
    ensures
        display_from(s, i) == s.subrange(i, j) + display_from(s, j),
    decreases j - i,
{
    if i < j {
        lemma_display_plain(s, i + 1, j);
        assert(!display_at(s, i));
        assert(s.subrange(i, j) =~= seq![s[i]] + s.subrange(i + 1, j));
    } else {
        assert(s.subrange(i, j) =~= Seq::<char>::empty());
    }
}

proof fn lemma_inline_plain(s: Seq<char>, i: int, j: int)
    requires
        0 <= i <= j <= s.len(),
        plain(s, i, j, false),
    ensures
        inline_from(s, i) == s.subrange(i, j) + inline_from(s, j),
    decreases j - i,
{
    if i < j {
        lemma_inline_plain(s, i + 1, j);
        assert(!inline_at(s, i));
        assert(s.subrange(i, j) =~= seq![s[i]] + s.subrange(i + 1, j));
    } else {
        assert(s.subrange(i, j) =~= Seq::<char>::empty());
    }
}

proof fn lemma_display_stage(p: Seq<char>, a: Seq<char>, sep: Seq<char>, b: Seq<char>, r: Seq<char>)
    requires
        a.len() > 0,
        b.len() > 0,
        plain(p, 0, p.len() as int, false),
        plain(a, 0, a.len() as int, false),
        plain(sep, 0, sep.len() as int, false),
        plain(b, 0, b.len() as int, true),
        plain(r, 0, r.len() as int, false),
    ensures
        display_markup(p + seq!['$', '$'] + a + seq!['$', '$'] + sep + seq!['$'] + b + seq!['$'] + r)
            == p + display_span(a) + sep + seq!['$'] + b + seq!['$'] + r,
{
    let s = p + seq!['$', '$'] + a + seq!['$', '$'] + sep + seq!['$'] + b + seq!['$'] + r;
    let np = p.len() as int;
    let na = a.len() as int;
    let q0 = np + 4 + na;
    let q1 = q0 + sep.len() as int;
    let e = q1 + 1 + b.len() as int;
    assert(s.len() == e + 1 + r.len());
    assert(s.subrange(0, np) =~= p);
    assert(s.subrange(np + 2, np + 2 + na) =~= a);
    assert(s.subrange(q0, q1) =~= sep);
    assert(s.subrange(q1 + 1, e) =~= b);
    assert(s.subrange(e + 1, s.len() as int) =~= r);
    assert(plain(s, 0, np, false)) by {
        assert forall|m: int| 0 <= m < np implies s[m] != '$' by {
            assert(s[m] == p[m]);
        }
    }
    lemma_display_plain(s, 0, np);
    assert(plain(s, np + 2, np + 2 + na, false)) by {
        assert forall|m: int| np + 2 <= m < np + 2 + na implies s[m] != '$' by {
            assert(s[m] == a[m - np - 2]);
        }
    }
    lemma_body_end_skips(s, np + 2, np + 2 + na, false);
    assert(s[np + 2 + na] == '$');
    assert(display_at(s, np));
    assert(plain(s, q0, q1, false)) by {
        assert forall|m: int| q0 <= m < q1 implies s[m] != '$' by {
            assert(s[m] == sep[m - q0]);
        }
    }
    lemma_display_plain(s, q0, q1);
    assert(s[q1] == '$');
    assert(s[q1 + 1] == b[0]);
    assert(!display_at(s, q1));
    assert(plain(s, q1 + 1, e, false)) by {
        assert forall|m: int| q1 + 1 <= m < e implies s[m] != '$' by {
            assert(s[m] == b[m - q1 - 1]);
        }
    }
    lemma_display_plain(s, q1 + 1, e);
    if r.len() > 0 {
        assert(s[e + 1] == r[0]);
    }
    assert(!display_at(s, e));
    assert(plain(s, e + 1, s.len() as int, false)) by {
        assert forall|m: int| e + 1 <= m < s.len() implies s[m] != '$' by {
            assert(s[m] == r[m - e - 1]);
        }
    }
    lemma_display_plain(s, e + 1, s.len() as int);
    assert(display_from(s, s.len() as int) =~= Seq::<char>::empty());
    assert(display_markup(s) =~= p + display_span(a) + sep + seq!['$'] + b + seq!['$'] + r);
}

proof fn lemma_inline_stage(x: Seq<char>, b: Seq<char>, r: Seq<char>)
    requires
        b.len() > 0,
        plain(x, 0, x.len() as int, false),
        plain(b, 0, b.len() as int, true),
        plain(r, 0, r.len() as int, false),
    ensures
        inline_markup(x + seq!['$'] + b + seq!['$'] + r) == x + inline_span(b) + r,
{
    let d = x + seq!['$'] + b + seq!['$'] + r;
    let q = x.len() as int;
    let f = q + 1 + b.len() as int;
    assert(d.len() == f + 1 + r.len());
    assert(d.subrange(0, q) =~= x);
    assert(plain(d, 0, q, false)) by {
        assert forall|m: int| 0 <= m < q implies d[m] != '$' by {
            assert(d[m] == x[m]);
        }
    }
    lemma_inline_plain(d, 0, q);
    assert(d.subrange(q + 1, f) =~= b);
    assert(plain(d, q + 1, f, true)) by {
        assert forall|m: int| q + 1 <= m < f implies d[m] != '$' && d[m] != '\n' by {
            assert(d[m] == b[m - q - 1]);
        }
    }
    lemma_body_end_skips(d, q + 1, f, true);
    assert(d[f] == '$');
    assert(inline_at(d, q));
    assert(d.subrange(f + 1, d.len() as int) =~= r);
    assert(plain(d, f + 1, d.len() as int, false)) by {
        assert forall|m: int| f + 1 <= m < d.len() implies d[m] != '$' by {
            assert(d[m] == r[m - f - 1]);
        }
    }
    lemma_inline_plain(d, f + 1, d.len() as int);
    assert(inline_from(d, d.len() as int) =~= Seq::<char>::empty());
    assert(inline_markup(d) =~= x + inline_span(b) + r);
}

proof fn lemma_display_span_plain(p: Seq<char>, a: Seq<char>, sep: Seq<char>)
    requires
        plain(p, 0, p.len() as int, false),
        plain(a, 0, a.len() as int, false),
        plain(sep, 0, sep.len() as int, false),
    ensures
        plain(p + display_span(a) + sep, 0, (p + display_span(a) + sep).len() as int, false),
{
    reveal_strlit("<span class=\"katex-display\">\\[");
    reveal_strlit("\\]</span>");
    let x = p + display_span(a) + sep;
    let o = "<span class=\"katex-display\">\\["@;
    let c = "\\]</span>"@;
    let n = p.len() as int;
    assert forall|m: int| 0 <= m < x.len() implies x[m] != '$' by {
        if m < n {
            assert(x[m] == p[m]);
        } else if m < n + o.len() {
            assert(x[m] == o[m - n]);
        } else if m < n + o.len() + a.len() {
            assert(x[m] == a[m - n - o.len()]);
        } else if m < n + o.len() + a.len() + c.len() {
            assert(x[m] == c[m - n - o.len() - a.len()]);
        } else {
            assert(x[m] == sep[m - n - o.len() - a.len() - c.len()]);
        }
    }
}

/// Display math and inline math on one line each become their own span:
/// text without `$`, then `$$a$$`, text without `$`, `$b$` and text without
/// `$` turns into the same texts around the display span of `a` and the
/// inline span of `b`; no `$` is left and neither span holds the other.
pub proof fn lemma_display_and_inline_on_one_line(
    p: Seq<char>,
    a: Seq<char>,
    sep: Seq<char>,
    b: Seq<char>,
    r: Seq<char>,
)
    requires
        a.len() > 0,
        b.len() > 0,
        plain(p, 0, p.len() as int, false),
        plain(a, 0, a.len() as int, false),
        plain(sep, 0, sep.len() as int, false),
        plain(b, 0, b.len() as int, true),
        plain(r, 0, r.len() as int, false),
    ensures
        math_markup(p + seq!['$', '$'] + a + seq!['$', '$'] + sep + seq!['$'] + b + seq!['$'] + r)
            == p + display_span(a) + sep + inline_span(b) + r,
{
    lemma_display_stage(p, a, sep, b, r);
    lemma_display_span_plain(p, a, sep);
    let x = p + display_span(a) + sep;
    assert(p + display_span(a) + sep + seq!['$'] + b + seq!['$'] + r =~= x + seq!['$'] + b + seq!['$'] + r);
    lemma_inline_stage(x, b, r);
}

/// Text without any `$` goes through math markup unchanged: the pass adds
/// no markup of its own there.
pub proof fn lemma_math_leaves_plain_text(s: Seq<char>)
    requires
        plain(s, 0, s.len() as int, false),
    ensures
        math_markup(s) == s,
{
    lemma_display_plain(s, 0, s.len() as int);
    assert(s.subrange(0, s.len() as int) =~= s);
    assert(display_markup(s) =~= s);
    lemma_inline_plain(s, 0, s.len() as int);
}

fn find_body_end(s: &Vec<char>, i: usize, stop_at_newline: bool) -> (k: usize)
    requires
        i <= s.len(),
    ensures
        k as int == body_end(s@, i as int, stop_at_newline),
{
    let mut k = i;
    while k < s.len() && s[k] != '$' && !(stop_at_newline && s[k] == '\n')
        invariant
            i <= k <= s.len(),
            body_end(s@, k as int, stop_at_newline) == body_end(s@, i as int, stop_at_newline),
        decreases s.len() - k,
    {
        k = k + 1;
    }
    k
}

/// Rewrites every `$$body$$` into a display-math span.
pub fn display_math(html: &str) -> (r: String)
    ensures
        r@ == display_markup(html@),
{
    let s = chars_of(html);
    let mut out = String::new();
    let mut i: usize = 0;
    while i < s.len()
        invariant
            s@ == html@,
            i <= s.len(),
            out@ + display_from(s@, i as int) == display_markup(s@),
        decreases s.len() - i,
    {
        let mut k: usize = i;
        if i + 1 < s.len() && s[i] == '$' && s[i + 1] == '$' {
            k = find_body_end(&s, i + 2, false);
            proof { lemma_body_end_bounds(s@, i + 2, false); }
        }
        if k > i && k - i > 2 && k < s.len() - 1 && s[k + 1] == '$' {
            assert(display_at(s@, i as int));
            let ghost before = out@;
            push_str(&mut out, "<span class=\"katex-display\">\\[");
            push_range(&mut out, &s, i + 2, k);
            push_str(&mut out, "\\]</span>");
            assert(out@ =~= before + display_span(s@.subrange(i + 2, k as int)));
            i = k + 2;
        } else {
            assert(!display_at(s@, i as int));
            let ghost before = out@;
            push_char(&mut out, s[i]);
            assert(out@ =~= before + seq![s@[i as int]]);
            i = i + 1;
        }
    }
    out
}

/// Rewrites every single-line `$body$` into an inline-math span.
pub fn inline_math(html: &str) -> (r: String)
    ensures
        r@ == inline_markup(html@),
{
    let s = chars_of(html);
    let mut out = String::new();
    let mut i: usize = 0;
    while i < s.len()
        invariant
            s@ == html@,
            i <= s.len(),
            out@ + inline_from(s@, i as int) == inline_markup(s@),
        decreases s.len() - i,
    {
        let mut k: usize = i;
        if s[i] == '$' {
            k = find_body_end(&s, i + 1, true);
            proof { lemma_body_end_bounds(s@, i + 1, true); }
        }
        if k > i && k - i > 1 && k < s.len() && s[k] == '$' {
            assert(inline_at(s@, i as int));
            let ghost before = out@;
            push_str(&mut out, "<span class=\"katex\">\\(");
            push_range(&mut out, &s, i + 1, k);
            push_str(&mut out, "\\)</span>");
            assert(out@ =~= before + inline_span(s@.subrange(i + 1, k as int)));
            i = k + 1;
        } else {
            assert(!inline_at(s@, i as int));
            let ghost before = out@;
            push_char(&mut out, s[i]);
            assert(out@ =~= before + seq![s@[i as int]]);
            i = i + 1;
        }
    }
    out
}

/// Applies the display pass, then the inline pass.
pub fn process_latex_math(html: &str) -> (r: String)
    ensures
        r@ == math_markup(html@),
{
    let display = display_math(html);
    inline_math(display.as_str())
}

} // verus!
