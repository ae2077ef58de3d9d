//! Shorthand symbols: `:name:` tokens replaced by a fixed glyph.
use vstd::prelude::*;
use crate::text::{chars_of, push_char, push_str};

verus! {

/// `pat` (non-empty) occurs in `s` at index `i`.
pub open spec fn occurs_at(s: Seq<char>, pat: Seq<char>, i: int) -> bool {
    &&& pat.len() > 0
    &&& 0 <= i && i + pat.len() <= s.len()
    &&& s.subrange(i, i + pat.len()) == pat
}

/// `s` from index `i` on, with each occurrence of `pat` replaced by `rep`,
/// scanning left to right without overlap.
pub open spec fn replace_from(s: Seq<char>, pat: Seq<char>, rep: Seq<char>, i: int) -> Seq<char>
    decreases s.len() - i,
{
    if i < 0 || i >= s.len() {
        Seq::empty()
    } else if occurs_at(s, pat, i) {
        rep + replace_from(s, pat, rep, i + pat.len())
    } else {
        seq![s[i]] + replace_from(s, pat, rep, i + 1)
    }
}

pub open spec fn replace_all(s: Seq<char>, pat: Seq<char>, rep: Seq<char>) -> Seq<char> {
    replace_from(s, pat, rep, 0)
}

/// The shorthand names and their glyphs, in the order they are applied.
pub open spec fn symbol_table() -> Seq<(Seq<char>, Seq<char>)> {
    seq![
        ("smile"@, "😄"@),
        ("laughing"@, "😆"@),
        ("wink"@, "😉"@),
        ("blush"@, "😊"@),
        ("heart"@, "❤️"@),
        ("broken_heart"@, "💔"@),
        ("thumbsup"@, "👍"@),
        ("thumbsdown"@, "👎"@),
        ("ok_hand"@, "👌"@),
        ("point_right"@, "👉"@),
        ("point_left"@, "👈"@),
        ("point_up"@, "👆"@),
        ("point_down"@, "👇"@),
        ("clap"@, "👏"@),
        ("wave"@, "👋"@),
        ("fire"@, "🔥"@),
        ("rocket"@, "🚀"@),
        ("star"@, "⭐"@),
        ("warning"@, "⚠️"@),
        ("exclamation"@, "❗"@),
        ("question"@, "❓"@),
        ("heavy_check_mark"@, "✅"@),
        ("x"@, "❌"@),
        ("o"@, "⭕"@),
        ("bulb"@, "💡"@),
        ("gear"@, "⚙️"@),
        ("wrench"@, "🔧"@),
        ("hammer"@, "🔨"@),
        ("lock"@, "🔒"@),
        ("unlock"@, "🔓"@),
        ("key"@, "🔑"@),
        ("mag"@, "🔍"@),
        ("computer"@, "💻"@),
        ("phone"@, "📱"@),
        ("email"@, "📧"@),
        ("book"@, "📖"@),
        ("pencil"@, "✏️"@),
        ("memo"@, "📝"@),
        ("clipboard"@, "📋"@),
        ("calendar"@, "📅"@),
        ("clock"@, "🕐"@),
        ("hourglass"@, "⏳"@),
    ]
}

/// The token written for `name`: `:name:`.
pub open spec fn token_of(name: Seq<char>) -> Seq<char> {
    seq![':'] + name + seq![':']
}

/// `s` after the first `n` entries of the table have been substituted.
pub open spec fn substitute_first(s: Seq<char>, n: int) -> Seq<char>
    decreases n,
{
    if n <= 0 {
        s
    } else {
        let e = symbol_table()[n - 1];
        replace_all(substitute_first(s, n - 1), token_of(e.0), e.1)
    }
}

/// Every entry of the table substituted, in table order.
pub open spec fn substitute_symbols(s: Seq<char>) -> Seq<char> {
    substitute_first(s, symbol_table().len() as int)
}

/// A character that can stand in a token: `:`, `_` or a lower-case letter.
pub open spec fn token_char(c: char) -> bool {
    c == ':' || c == '_' || ('a' <= c && c <= 'z')
}

pub open spec fn all_token_chars(w: Seq<char>) -> bool {
    forall|k: int| 0 <= k < w.len() ==> token_char(#[trigger] w[k])
}

pub open spec fn no_token_chars(w: Seq<char>) -> bool {
    forall|k: int| 0 <= k < w.len() ==> !token_char(#[trigger] w[k])
}

/// `t` occurs somewhere in `s`.
pub open spec fn occurs_in(s: Seq<char>, t: Seq<char>) -> bool {
    exists|j: int| #[trigger] occurs_at(s, t, j)
}

/// A table entry whose token is made of token characters and whose glyph of
/// none.
pub open spec fn entry_well_formed(e: (Seq<char>, Seq<char>)) -> bool {
    &&& all_token_chars(token_of(e.0))
    &&& e.1.len() > 0
    &&& no_token_chars(e.1)
}

proof fn lemma_token_chars(name: Seq<char>)
    requires
        forall|k: int| 0 <= k < name.len() ==> name[k] == '_' || ('a' <= #[trigger] name[k] && name[k] <= 'z'),
    ensures
        all_token_chars(token_of(name)),
{
    let t = token_of(name);
    assert forall|k: int| 0 <= k < t.len() implies token_char(#[trigger] t[k]) by {
        if k > 0 && k <= name.len() {
            assert(t[k] == name[k - 1]);
        }
    }
}

proof fn lemma_entry_0()
    ensures
        entry_well_formed(symbol_table()[0]),
{
    reveal_strlit("smile");
    reveal_strlit("😄");
    assert(symbol_table()[0] == ("smile"@, "😄"@));
    lemma_token_chars("smile"@);
}
proof fn lemma_entry_1()
    ensures
        entry_well_formed(symbol_table()[1]),
{
    reveal_strlit("laughing");
    reveal_strlit("😆");
    assert(symbol_table()[1] == ("laughing"@, "😆"@));
    lemma_token_chars("laughing"@);
}
proof fn lemma_entry_2()
    ensures
        entry_well_formed(symbol_table()[2]),
{
    reveal_strlit("wink");
    reveal_strlit("😉");
    assert(symbol_table()[2] == ("wink"@, "😉"@));
    lemma_token_chars("wink"@);
}
proof fn lemma_entry_3()
    ensures
        entry_well_formed(symbol_table()[3]),
{
    reveal_strlit("blush");
    reveal_strlit("😊");
    assert(symbol_table()[3] == ("blush"@, "😊"@));
    lemma_token_chars("blush"@);
}
proof fn lemma_entry_4()
    ensures
        entry_well_formed(symbol_table()[4]),
{
    reveal_strlit("heart");
    reveal_strlit("❤️");
    assert(symbol_table()[4] == ("heart"@, "❤️"@));
    lemma_token_chars("heart"@);
}
proof fn lemma_entry_5()
    ensures
        entry_well_formed(symbol_table()[5]),
{
    reveal_strlit("broken_heart");
    reveal_strlit("💔");
    assert(symbol_table()[5] == ("broken_heart"@, "💔"@));
    lemma_token_chars("broken_heart"@);
}
proof fn lemma_entry_6()
    ensures
        entry_well_formed(symbol_table()[6]),
{
    reveal_strlit("thumbsup");
    reveal_strlit("👍");
    assert(symbol_table()[6] == ("thumbsup"@, "👍"@));
    lemma_token_chars("thumbsup"@);
}
proof fn lemma_entry_7()
    ensures
        entry_well_formed(symbol_table()[7]),
{
    reveal_strlit("thumbsdown");
    reveal_strlit("👎");
    assert(symbol_table()[7] == ("thumbsdown"@, "👎"@));
    lemma_token_chars("thumbsdown"@);
}
proof fn lemma_entry_8()
    ensures
        entry_well_formed(symbol_table()[8]),
{
    reveal_strlit("ok_hand");
    reveal_strlit("👌");
    assert(symbol_table()[8] == ("ok_hand"@, "👌"@));
    lemma_token_chars("ok_hand"@);
}
proof fn lemma_entry_9()
    ensures
        entry_well_formed(symbol_table()[9]),
{
    reveal_strlit("point_right");
    reveal_strlit("👉");
    assert(symbol_table()[9] == ("point_right"@, "👉"@));
    lemma_token_chars("point_right"@);
}
proof fn lemma_entry_10()
    ensures
        entry_well_formed(symbol_table()[10]),
{
    reveal_strlit("point_left");
    reveal_strlit("👈");
    assert(symbol_table()[10] == ("point_left"@, "👈"@));
    lemma_token_chars("point_left"@);
}
proof fn lemma_entry_11()
    ensures
        entry_well_formed(symbol_table()[11]),
{
    reveal_strlit("point_up");
    reveal_strlit("👆");
    assert(symbol_table()[11] == ("point_up"@, "👆"@));
    lemma_token_chars("point_up"@);
}
proof fn lemma_entry_12()
    ensures
        entry_well_formed(symbol_table()[12]),
{
    reveal_strlit("point_down");
    reveal_strlit("👇");
    assert(symbol_table()[12] == ("point_down"@, "👇"@));
    lemma_token_chars("point_down"@);
}
proof fn lemma_entry_13()
    ensures
        entry_well_formed(symbol_table()[13]),
{
    reveal_strlit("clap");
    reveal_strlit("👏");
    assert(symbol_table()[13] == ("clap"@, "👏"@));
    lemma_token_chars("clap"@);
}
proof fn lemma_entry_14()
    ensures
        entry_well_formed(symbol_table()[14]),
{
    reveal_strlit("wave");
    reveal_strlit("👋");
    assert(symbol_table()[14] == ("wave"@, "👋"@));
    lemma_token_chars("wave"@);
}
proof fn lemma_entry_15()
    ensures
        entry_well_formed(symbol_table()[15]),
{
    reveal_strlit("fire");
    reveal_strlit("🔥");
    assert(symbol_table()[15] == ("fire"@, "🔥"@));
    lemma_token_chars("fire"@);
}
proof fn lemma_entry_16()
    ensures
        entry_well_formed(symbol_table()[16]),
{
    reveal_strlit("rocket");
    reveal_strlit("🚀");
    assert(symbol_table()[16] == ("rocket"@, "🚀"@));
    lemma_token_chars("rocket"@);
}
proof fn lemma_entry_17()
    ensures
        entry_well_formed(symbol_table()[17]),
{
    reveal_strlit("star");
    reveal_strlit("⭐");
    assert(symbol_table()[17] == ("star"@, "⭐"@));
    lemma_token_chars("star"@);
}
proof fn lemma_entry_18()
    ensures
        entry_well_formed(symbol_table()[18]),
{
    reveal_strlit("warning");
    reveal_strlit("⚠️");
    assert(symbol_table()[18] == ("warning"@, "⚠️"@));
    lemma_token_chars("warning"@);
}
proof fn lemma_entry_19()
    ensures
        entry_well_formed(symbol_table()[19]),
{
    reveal_strlit("exclamation");
    reveal_strlit("❗");
    assert(symbol_table()[19] == ("exclamation"@, "❗"@));
    lemma_token_chars("exclamation"@);
}
proof fn lemma_entry_20()
    ensures
        entry_well_formed(symbol_table()[20]),
{
    reveal_strlit("question");
    reveal_strlit("❓");
    assert(symbol_table()[20] == ("question"@, "❓"@));
    lemma_token_chars("question"@);
}
proof fn lemma_entry_21()
    ensures
        entry_well_formed(symbol_table()[21]),
{
    reveal_strlit("heavy_check_mark");
    reveal_strlit("✅");
    assert(symbol_table()[21] == ("heavy_check_mark"@, "✅"@));
    lemma_token_chars("heavy_check_mark"@);
}
proof fn lemma_entry_22()
    ensures
        entry_well_formed(symbol_table()[22]),
{
    reveal_strlit("x");
    reveal_strlit("❌");
    assert(symbol_table()[22] == ("x"@, "❌"@));
    lemma_token_chars("x"@);
}
proof fn lemma_entry_23()
    ensures
        entry_well_formed(symbol_table()[23]),
{
    reveal_strlit("o");
    reveal_strlit("⭕");
    assert(symbol_table()[23] == ("o"@, "⭕"@));
    lemma_token_chars("o"@);
}
proof fn lemma_entry_24()
    ensures
        entry_well_formed(symbol_table()[24]),
{
    reveal_strlit("bulb");
    reveal_strlit("💡");
    assert(symbol_table()[24] == ("bulb"@, "💡"@));
    lemma_token_chars("bulb"@);
}
proof fn lemma_entry_25()
    ensures
        entry_well_formed(symbol_table()[25]),
{
    reveal_strlit("gear");
    reveal_strlit("⚙️");
    assert(symbol_table()[25] == ("gear"@, "⚙️"@));
    lemma_token_chars("gear"@);
}
proof fn lemma_entry_26()
    ensures
        entry_well_formed(symbol_table()[26]),
{
    reveal_strlit("wrench");
    reveal_strlit("🔧");
    assert(symbol_table()[26] == ("wrench"@, "🔧"@));
    lemma_token_chars("wrench"@);
}
proof fn lemma_entry_27()
    ensures
        entry_well_formed(symbol_table()[27]),
{
    reveal_strlit("hammer");
    reveal_strlit("🔨");
    assert(symbol_table()[27] == ("hammer"@, "🔨"@));
    lemma_token_chars("hammer"@);
}
proof fn lemma_entry_28()
    ensures
        entry_well_formed(symbol_table()[28]),
{
    reveal_strlit("lock");
    reveal_strlit("🔒");
    assert(symbol_table()[28] == ("lock"@, "🔒"@));
    lemma_token_chars("lock"@);
}
proof fn lemma_entry_29()
    ensures
        entry_well_formed(symbol_table()[29]),
{
    reveal_strlit("unlock");
    reveal_strlit("🔓");
    assert(symbol_table()[29] == ("unlock"@, "🔓"@));
    lemma_token_chars("unlock"@);
}
proof fn lemma_entry_30()
    ensures
        entry_well_formed(symbol_table()[30]),
{
    reveal_strlit("key");
    reveal_strlit("🔑");
    assert(symbol_table()[30] == ("key"@, "🔑"@));
    lemma_token_chars("key"@);
}
proof fn lemma_entry_31()
    ensures
        entry_well_formed(symbol_table()[31]),
{
    reveal_strlit("mag");
    reveal_strlit("🔍");
    assert(symbol_table()[31] == ("mag"@, "🔍"@));
    lemma_token_chars("mag"@);
}
proof fn lemma_entry_32()
    ensures
        entry_well_formed(symbol_table()[32]),
{
    reveal_strlit("computer");
    reveal_strlit("💻");
    assert(symbol_table()[32] == ("computer"@, "💻"@));
    lemma_token_chars("computer"@);
}
proof fn lemma_entry_33()
    ensures
        entry_well_formed(symbol_table()[33]),
{
    reveal_strlit("phone");
    reveal_strlit("📱");
    assert(symbol_table()[33] == ("phone"@, "📱"@));
    lemma_token_chars("phone"@);
}
proof fn lemma_entry_34()
    ensures
        entry_well_formed(symbol_table()[34]),
{
    reveal_strlit("email");
    reveal_strlit("📧");
    assert(symbol_table()[34] == ("email"@, "📧"@));
    lemma_token_chars("email"@);
}
proof fn lemma_entry_35()
    ensures
        entry_well_formed(symbol_table()[35]),
{
    reveal_strlit("book");
    reveal_strlit("📖");
    assert(symbol_table()[35] == ("book"@, "📖"@));
    lemma_token_chars("book"@);
}
proof fn lemma_entry_36()
    ensures
        entry_well_formed(symbol_table()[36]),
{
    reveal_strlit("pencil");
    reveal_strlit("✏️");
    assert(symbol_table()[36] == ("pencil"@, "✏️"@));
    lemma_token_chars("pencil"@);
}
proof fn lemma_entry_37()
    ensures
        entry_well_formed(symbol_table()[37]),
{
    reveal_strlit("memo");
    reveal_strlit("📝");
    assert(symbol_table()[37] == ("memo"@, "📝"@));
    lemma_token_chars("memo"@);
}
proof fn lemma_entry_38()
    ensures
        entry_well_formed(symbol_table()[38]),
{
    reveal_strlit("clipboard");
    reveal_strlit("📋");
    assert(symbol_table()[38] == ("clipboard"@, "📋"@));
    lemma_token_chars("clipboard"@);
}
proof fn lemma_entry_39()
    ensures
        entry_well_formed(symbol_table()[39]),
{
    reveal_strlit("calendar");
    reveal_strlit("📅");
    assert(symbol_table()[39] == ("calendar"@, "📅"@));
    lemma_token_chars("calendar"@);
}
proof fn lemma_entry_40()
    ensures
        entry_well_formed(symbol_table()[40]),
{
    reveal_strlit("clock");
    reveal_strlit("🕐");
    assert(symbol_table()[40] == ("clock"@, "🕐"@));
    lemma_token_chars("clock"@);
}
proof fn lemma_entry_41()
    ensures
        entry_well_formed(symbol_table()[41]),
{
    reveal_strlit("hourglass");
    reveal_strlit("⏳");
    assert(symbol_table()[41] == ("hourglass"@, "⏳"@));
    lemma_token_chars("hourglass"@);
}

proof fn lemma_table_well_formed()
    ensures
        forall|k: int| 0 <= k < symbol_table().len() ==> entry_well_formed(#[trigger] symbol_table()[k]),
{
    lemma_entry_0();
    lemma_entry_1();
    lemma_entry_2();
    lemma_entry_3();
    lemma_entry_4();
    lemma_entry_5();
    lemma_entry_6();
    lemma_entry_7();
    lemma_entry_8();
    lemma_entry_9();
    lemma_entry_10();
    lemma_entry_11();
    lemma_entry_12();
    lemma_entry_13();
    lemma_entry_14();
    lemma_entry_15();
    lemma_entry_16();
    lemma_entry_17();
    lemma_entry_18();
    lemma_entry_19();
    lemma_entry_20();
    lemma_entry_21();
    lemma_entry_22();
    lemma_entry_23();
    lemma_entry_24();
    lemma_entry_25();
    lemma_entry_26();
    lemma_entry_27();
    lemma_entry_28();
    lemma_entry_29();
    lemma_entry_30();
    lemma_entry_31();
    lemma_entry_32();
    lemma_entry_33();
    lemma_entry_34();
    lemma_entry_35();
    lemma_entry_36();
    lemma_entry_37();
    lemma_entry_38();
    lemma_entry_39();
    lemma_entry_40();
    lemma_entry_41();
    assert forall|k: int| 0 <= k < symbol_table().len() implies entry_well_formed(#[trigger] symbol_table()[k]) by {
        assert(symbol_table().len() == 42);
    }
}

/// A prefix of the replaced text made of token characters stands unchanged
/// in the source, at a place where `pat` does not start.
proof fn lemma_prefix_back(s: Seq<char>, pat: Seq<char>, rep: Seq<char>, i: int, w: Seq<char>)
    requires
        0 <= i <= s.len(),
        pat.len() > 0,
        rep.len() > 0,
        no_token_chars(rep),
        all_token_chars(w),
        w.len() > 0,
        w.len() <= replace_from(s, pat, rep, i).len(),
        replace_from(s, pat, rep, i).subrange(0, w.len() as int) == w,
    ensures
        i + w.len() <= s.len(),
        s.subrange(i, i + w.len()) == w,
        !occurs_at(s, pat, i),
    decreases s.len() - i,
{
    let out = replace_from(s, pat, rep, i);
    assert(out[0] == w[0]);
    if i >= s.len() {
        assert(out.len() == 0);
    } else if occurs_at(s, pat, i) {
        assert(out[0] == rep[0]);
        assert(token_char(w[0]));
    } else {
        let rest = replace_from(s, pat, rep, i + 1);
        assert(out == seq![s[i]] + rest);
        if w.len() > 1 {
            let w1 = w.drop_first();
            assert(all_token_chars(w1)) by {
                assert forall|k: int| 0 <= k < w1.len() implies token_char(#[trigger] w1[k]) by {
                    assert(w1[k] == w[k + 1]);
                }
            }
            assert(rest.subrange(0, w1.len() as int) =~= w1) by {
                assert forall|k: int| 0 <= k < w1.len() implies rest[k] == w1[k] by {
                    assert(out[k + 1] == rest[k]);
                    assert(out.subrange(0, w.len() as int)[k + 1] == w[k + 1]);
                }
            }
            lemma_prefix_back(s, pat, rep, i + 1, w1);
            assert(s.subrange(i, i + w.len()) =~= seq![s[i]] + s.subrange(i + 1, i + 1 + w1.len()));
            assert(s.subrange(i, i + w.len()) =~= w);
        } else {
            assert(s.subrange(i, i + 1) =~= w);
        }
    }
}

/// A token occurring in the replaced text already occurred in the source,
/// and is not the pattern that was replaced.
proof fn lemma_occurrence_back(s: Seq<char>, pat: Seq<char>, rep: Seq<char>, i: int, t: Seq<char>, j: int)
    requires
        0 <= i <= s.len(),
        pat.len() > 0,
        rep.len() > 0,
        no_token_chars(rep),
        all_token_chars(t),
        occurs_at(replace_from(s, pat, rep, i), t, j),
    ensures
        occurs_in(s, t),
        t != pat,
    decreases s.len() - i,
{
    let out = replace_from(s, pat, rep, i);
    assert(out.subrange(j, j + t.len())[0] == t[0]);
    if i >= s.len() {
        assert(out.len() == 0);
    } else if occurs_at(s, pat, i) {
        let rest = replace_from(s, pat, rep, i + pat.len());
        assert(out == rep + rest);
        if j < rep.len() {
            assert(out[j] == rep[j]);
            assert(token_char(t[0]));
        } else {
            assert(rest.subrange(j - rep.len(), j - rep.len() + t.len()) =~= out.subrange(j, j + t.len()));
            assert(occurs_at(rest, t, j - rep.len()));
            lemma_occurrence_back(s, pat, rep, i + pat.len(), t, j - rep.len());
        }
    } else {
        let rest = replace_from(s, pat, rep, i + 1);
        assert(out == seq![s[i]] + rest);
        if j == 0 {
            lemma_prefix_back(s, pat, rep, i, t);
            assert(occurs_at(s, t, i));
        } else {
            assert(rest.subrange(j - 1, j - 1 + t.len()) =~= out.subrange(j, j + t.len()));
            assert(occurs_at(rest, t, j - 1));
            lemma_occurrence_back(s, pat, rep, i + 1, t, j - 1);
        }
    }
}

proof fn lemma_substitute_first(s: Seq<char>, n: int)
    requires
        0 <= n <= symbol_table().len(),
    ensures
        forall|k: int| 0 <= k < n ==> !occurs_in(substitute_first(s, n), #[trigger] token_of(symbol_table()[k].0)),
    decreases n,
{
    if n > 0 {
        lemma_substitute_first(s, n - 1);
        lemma_table_well_formed();
        let e = symbol_table()[n - 1];
        let prev = substitute_first(s, n - 1);
        assert forall|k: int| 0 <= k < n implies !occurs_in(substitute_first(s, n), #[trigger] token_of(symbol_table()[k].0)) by {
            let t = token_of(symbol_table()[k].0);
            assert(entry_well_formed(symbol_table()[k]));
            assert(entry_well_formed(e));
            if occurs_in(substitute_first(s, n), t) {
                let j = choose|j: int| #[trigger] occurs_at(substitute_first(s, n), t, j);
                lemma_occurrence_back(prev, token_of(e.0), e.1, 0, t, j);
            }
        }
    }
}

/// After substitution no token of the table is left: glyphs hold no token
/// character, so neither the substitution of a token nor a later one can
/// leave or make an occurrence of any token of the table.
pub proof fn lemma_no_token_left(s: Seq<char>)
    ensures
        forall|k: int| 0 <= k < symbol_table().len() ==>
            !occurs_in(substitute_symbols(s), #[trigger] token_of(symbol_table()[k].0)),
{
    lemma_substitute_first(s, symbol_table().len() as int);
}

/// The table of shorthand names and glyphs.
pub fn get_emoji_map() -> (t: Vec<(&'static str, &'static str)>)
    ensures
        t@.len() == symbol_table().len(),
        forall|i: int| 0 <= i < t@.len() ==> t@[i].0@ == symbol_table()[i].0 && t@[i].1@ == symbol_table()[i].1,
{
    let mut t: Vec<(&'static str, &'static str)> = Vec::new();
    t.push(("smile", "😄"));
    t.push(("laughing", "😆"));
    t.push(("wink", "😉"));
    t.push(("blush", "😊"));
    t.push(("heart", "❤️"));
    t.push(("broken_heart", "💔"));
    t.push(("thumbsup", "👍"));
    t.push(("thumbsdown", "👎"));
    t.push(("ok_hand", "👌"));
    t.push(("point_right", "👉"));
    t.push(("point_left", "👈"));
    t.push(("point_up", "👆"));
    t.push(("point_down", "👇"));
    t.push(("clap", "👏"));
    t.push(("wave", "👋"));
    t.push(("fire", "🔥"));
    t.push(("rocket", "🚀"));
    t.push(("star", "⭐"));
    t.push(("warning", "⚠️"));
    t.push(("exclamation", "❗"));
    t.push(("question", "❓"));
    t.push(("heavy_check_mark", "✅"));
    t.push(("x", "❌"));
    t.push(("o", "⭕"));
    t.push(("bulb", "💡"));
    t.push(("gear", "⚙️"));
    t.push(("wrench", "🔧"));
    t.push(("hammer", "🔨"));
    t.push(("lock", "🔒"));
    t.push(("unlock", "🔓"));
    t.push(("key", "🔑"));
    t.push(("mag", "🔍"));
    t.push(("computer", "💻"));
    t.push(("phone", "📱"));
    t.push(("email", "📧"));
    t.push(("book", "📖"));
    t.push(("pencil", "✏️"));
    t.push(("memo", "📝"));
    t.push(("clipboard", "📋"));
    t.push(("calendar", "📅"));
    t.push(("clock", "🕐"));
    t.push(("hourglass", "⏳"));
    t
}

fn occurs_at_exec(s: &Vec<char>, pat: &Vec<char>, i: usize) -> (r: bool)
    requires
        i <= s.len(),
    ensures
        r == occurs_at(s@, pat@, i as int),
{
    if pat.len() == 0 || pat.len() > s.len() - i {
        return false;
    }
    let mut j: usize = 0;
    while j < pat.len()
        invariant
            0 < pat.len() <= s.len() - i,
            j <= pat.len(),
            forall|m: int| 0 <= m < j ==> s@[i + m] == pat@[m],
        decreases pat.len() - j,
    {
        if s[i + j] != pat[j] {
            assert(s@.subrange(i as int, i + pat.len())[j as int] != pat@[j as int]);
            return false;
        }
        j = j + 1;
    }
    assert(s@.subrange(i as int, i + pat.len()) =~= pat@);
    true
}

/// Replaces every occurrence of `pat` in `s` by `rep`, left to right.
pub fn replace(s: &str, pat: &str, rep: &str) -> (r: String)
    ensures
        r@ == replace_all(s@, pat@, rep@),
{
    let cs = chars_of(s);
    let ps = chars_of(pat);
    let mut out = String::new();
    let mut i: usize = 0;
    while i < cs.len()
        invariant
            cs@ == s@,
            ps@ == pat@,
            i <= cs.len(),
            out@ + replace_from(cs@, ps@, rep@, i as int) == replace_all(cs@, ps@, rep@),
        decreases cs.len() - i,
    {
        let ghost before = out@;
        if occurs_at_exec(&cs, &ps, i) {
            push_str(&mut out, rep);
            i = i + ps.len();
        } else {
            push_char(&mut out, cs[i]);
            assert(out@ =~= before + seq![cs@[i as int]]);
            i = i + 1;
        }
    }
    out
}

/// Replaces each `:name:` token of the table by its glyph.
pub fn process_emojis(html: &str) -> (r: String)
    ensures
        r@ == substitute_symbols(html@),
{
    let table = get_emoji_map();
    let mut result = String::from_str(html);
    let mut n: usize = 0;
    while n < table.len()
        invariant
            table@.len() == symbol_table().len(),
            forall|i: int| 0 <= i < table@.len() ==> table@[i].0@ == symbol_table()[i].0 && table@[i].1@ == symbol_table()[i].1,
            n <= table.len(),
            result@ == substitute_first(html@, n as int),
        decreases table.len() - n,
    {
        let (name, glyph) = table[n];
        let mut token = String::new();
        push_char(&mut token, ':');
        push_str(&mut token, name);
        push_char(&mut token, ':');
        assert(token@ =~= token_of(symbol_table()[n as int].0));
        result = replace(result.as_str(), token.as_str(), glyph);
        n = n + 1;
    }
    result
}

} // verus!
