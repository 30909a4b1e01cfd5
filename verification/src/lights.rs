//! Animated light styles: each style is a string of brightness letters
//! ('a' darkest, 'z' brightest) played at ten letters per second.

use vstd::prelude::*;
use vstd::string::StrSliceExecFns;

verus! {

/// The number of light styles.
pub const LIGHT_STYLE_COUNT: usize = 12;

/// The letters of light style `i`.
pub open spec fn light_style_spec(i: int) -> Seq<char> {
    if i == 0 {
        "m"@
    } else if i == 1 {
        "mmnmmommommnonmmonqnmmo"@
    } else if i == 2 {
        "abcdefghijklmnopqrstuvwxyzyxwvutsrqponmlkjihgfedcba"@
    } else if i == 3 {
        "mmmmmaaaaammmmmaaaaaabcdefgabcdefg"@
    } else if i == 4 {
        "mamamamamama"@
    } else if i == 5 {
        "jklmnopqrstuvwxyzyxwvutsrqponmlkj"@
    } else if i == 6 {
        "nmonqnmomnmomomno"@
    } else if i == 7 {
        "mmmaaaabcdefgmmmmaaaammmaamm"@
    } else if i == 8 {
        "mmmaaammmaaammmabcdefaaaammmmabcdefmmmaaaa"@
    } else if i == 9 {
        "aaaaaaaazzzzzzzz"@
    } else if i == 10 {
        "mmamammmmammamamaaamammma"@
    } else {
        "abcdefghijklmnopqrrqponmlkjihgfedcba"@
    }
}

/// The letters of light style `i`.
pub fn light_style(i: usize) -> (s: &'static str)
    requires
        i < LIGHT_STYLE_COUNT,
    ensures
        s@ == light_style_spec(i as int),
{
    if i == 0 {
        "m"
    } else if i == 1 {
        "mmnmmommommnonmmonqnmmo"
    } else if i == 2 {
        "abcdefghijklmnopqrstuvwxyzyxwvutsrqponmlkjihgfedcba"
    } else if i == 3 {
        "mmmmmaaaaammmmmaaaaaabcdefgabcdefg"
    } else if i == 4 {
        "mamamamamama"
    } else if i == 5 {
        "jklmnopqrstuvwxyzyxwvutsrqponmlkj"
    } else if i == 6 {
        "nmonqnmomnmomomno"
    } else if i == 7 {
        "mmmaaaabcdefgmmmmaaaammmaamm"
    } else if i == 8 {
        "mmmaaammmaaammmabcdefaaaammmmabcdefmmmaaaa"
    } else if i == 9 {
        "aaaaaaaazzzzzzzz"
    } else if i == 10 {
        "mmamammmmammamamaaamammma"
    } else {
        "abcdefghijklmnopqrrqponmlkjihgfedcba"
    }
}

proof fn lemma_styles_not_empty()
    ensures
        forall|i: int| 0 <= i < LIGHT_STYLE_COUNT ==> #[trigger] light_style_spec(i).len() > 0,
{
    reveal_strlit("m");
    reveal_strlit("mmnmmommommnonmmonqnmmo");
    reveal_strlit("abcdefghijklmnopqrstuvwxyzyxwvutsrqponmlkjihgfedcba");
    reveal_strlit("mmmmmaaaaammmmmaaaaaabcdefgabcdefg");
    reveal_strlit("mamamamamama");
    reveal_strlit("jklmnopqrstuvwxyzyxwvutsrqponmlkj");
    reveal_strlit("nmonqnmomnmomomno");
    reveal_strlit("mmmaaaabcdefgmmmmaaaammmaamm");
    reveal_strlit("mmmaaammmaaammmabcdefaaaammmmabcdefmmmaaaa");
    reveal_strlit("aaaaaaaazzzzzzzz");
    reveal_strlit("mmamammmmammamamaaamammma");
    reveal_strlit("abcdefghijklmnopqrrqponmlkjihgfedcba");
}

/// A frame counter `t` selects a letter of a style of `len` letters: its
/// remainder by `len` (which keeps the sign of `t`) must not be negative.
pub open spec fn frame_ok(t: int, len: int) -> bool {
    t >= 0 || (-t) % len == 0
}

/// The letter index that frame counter `t` selects in a style of `len`
/// letters.
pub open spec fn frame_index(t: int, len: int) -> int {
    if t >= 0 {
        t % len
    } else {
        0
    }
}

/// The brightness of style `i` at frame counter `t`: the selected letter's
/// distance from 'a'.
pub open spec fn light_value(i: int, t: int) -> int {
    (light_style_spec(i)[frame_index(t, light_style_spec(i).len() as int)] as u32) - 97
}

/// The brightness of style `style` at frame counter `frame_count` (ten
/// frames per second), from 0 ('a') to 25 ('z').
pub fn light_level(style: usize, frame_count: i32) -> (r: i32)
    requires
        style < LIGHT_STYLE_COUNT,
        frame_ok(frame_count as int, light_style_spec(style as int).len() as int),
    ensures
        r == light_value(style as int, frame_count as int),
        0 <= r <= 25,
{
    proof {
        lemma_styles_not_empty();
        lemma_light_range(style as int, frame_count as int);
    }
    let s = light_style(style);
    assert(s@.len() > 0);
    let len = s.unicode_len();
    let frame: usize = if frame_count >= 0 {
        (frame_count as usize) % len
    } else {
        0
    };
    let c = s.get_char(frame);
    (c as u32) as i32 - 97
}

/// The brightness of every style at frame counter `frame_count`.
pub fn light_levels(frame_count: i32) -> (r: Vec<i32>)
    requires
        forall|i: int|
            0 <= i < LIGHT_STYLE_COUNT ==> frame_ok(
                frame_count as int,
                #[trigger] light_style_spec(i).len() as int,
            ),
    ensures
        r@.len() == LIGHT_STYLE_COUNT,
        forall|i: int| 0 <= i < LIGHT_STYLE_COUNT ==> r@[i] == light_value(i, frame_count as int),
{
    let mut r: Vec<i32> = Vec::new();
    let mut i: usize = 0;
    while i < LIGHT_STYLE_COUNT
        invariant
            i <= LIGHT_STYLE_COUNT,
            r@.len() == i,
            forall|k: int| 0 <= k < i ==> r@[k] == light_value(k, frame_count as int),
            forall|k: int|
                0 <= k < LIGHT_STYLE_COUNT ==> frame_ok(
                    frame_count as int,
                    #[trigger] light_style_spec(k).len() as int,
                ),
        decreases LIGHT_STYLE_COUNT - i,
    {
        r.push(light_level(i, frame_count));
        i = i + 1;
    }
    r
}

/// The light animation repeats: a style shows the same brightness one
/// full cycle of its letters later.
pub proof fn lemma_light_period(i: int, t: int)
    requires
        0 <= i < LIGHT_STYLE_COUNT,
        t >= 0,
    ensures
        light_value(i, t + light_style_spec(i).len()) == light_value(i, t),
{
    lemma_styles_not_empty();
    let len = light_style_spec(i).len() as int;
    assert(light_style_spec(i).len() > 0);
    vstd::arithmetic::div_mod::lemma_mod_add_multiples_vanish(t, len);
    assert(t + len == len + t);
}

/// Every letter of `s` lies between 'a' and 'z'.
pub open spec fn letters_ok(s: Seq<char>) -> bool {
    forall|k: int| 0 <= k < s.len() ==> 'a' <= #[trigger] s[k] <= 'z'
}

proof fn lemma_styles_letters(i: int)
    requires
        0 <= i < LIGHT_STYLE_COUNT,
    ensures
        letters_ok(light_style_spec(i)),
{
    if i == 0 {
        reveal_strlit("m");
        let s = light_style_spec(i);
        assert forall|k: int| 0 <= k < s.len() implies 'a' <= #[trigger] s[k] <= 'z' by {}
    }
    if i == 1 {
        reveal_strlit("mmnmmommommnonmmonqnmmo");
        let s = light_style_spec(i);
        assert forall|k: int| 0 <= k < s.len() implies 'a' <= #[trigger] s[k] <= 'z' by {}
    }
    if i == 2 {
        reveal_strlit("abcdefghijklmnopqrstuvwxyzyxwvutsrqponmlkjihgfedcba");
        let s = light_style_spec(i);
        assert forall|k: int| 0 <= k < s.len() implies 'a' <= #[trigger] s[k] <= 'z' by {}
    }
    if i == 3 {
        reveal_strlit("mmmmmaaaaammmmmaaaaaabcdefgabcdefg");
        let s = light_style_spec(i);
        assert forall|k: int| 0 <= k < s.len() implies 'a' <= #[trigger] s[k] <= 'z' by {}
    }
    if i == 4 {
        reveal_strlit("mamamamamama");
        let s = light_style_spec(i);
        assert forall|k: int| 0 <= k < s.len() implies 'a' <= #[trigger] s[k] <= 'z' by {}
    }
    if i == 5 {
        reveal_strlit("jklmnopqrstuvwxyzyxwvutsrqponmlkj");
        let s = light_style_spec(i);
        assert forall|k: int| 0 <= k < s.len() implies 'a' <= #[trigger] s[k] <= 'z' by {}
    }
    if i == 6 {
        reveal_strlit("nmonqnmomnmomomno");
        let s = light_style_spec(i);
        assert forall|k: int| 0 <= k < s.len() implies 'a' <= #[trigger] s[k] <= 'z' by {}
    }
    if i == 7 {
        reveal_strlit("mmmaaaabcdefgmmmmaaaammmaamm");
        let s = light_style_spec(i);
        assert forall|k: int| 0 <= k < s.len() implies 'a' <= #[trigger] s[k] <= 'z' by {}
    }
    if i == 8 {
        reveal_strlit("mmmaaammmaaammmabcdefaaaammmmabcdefmmmaaaa");
        let s = light_style_spec(i);
        assert forall|k: int| 0 <= k < s.len() implies 'a' <= #[trigger] s[k] <= 'z' by {}
    }
    if i == 9 {
        reveal_strlit("aaaaaaaazzzzzzzz");
        let s = light_style_spec(i);
        assert forall|k: int| 0 <= k < s.len() implies 'a' <= #[trigger] s[k] <= 'z' by {}
    }
    if i == 10 {
        reveal_strlit("mmamammmmammamamaaamammma");
        let s = light_style_spec(i);
        assert forall|k: int| 0 <= k < s.len() implies 'a' <= #[trigger] s[k] <= 'z' by {}
    }
    if i == 11 {
        reveal_strlit("abcdefghijklmnopqrrqponmlkjihgfedcba");
        let s = light_style_spec(i);
        assert forall|k: int| 0 <= k < s.len() implies 'a' <= #[trigger] s[k] <= 'z' by {}
    }
}

/// Every brightness lies between 0 ('a') and 25 ('z').
pub proof fn lemma_light_range(i: int, t: int)
    requires
        0 <= i < LIGHT_STYLE_COUNT,
    ensures
        0 <= light_value(i, t) <= 25,
{
    lemma_styles_not_empty();
    lemma_styles_letters(i);
    let s = light_style_spec(i);
    let k = frame_index(t, s.len() as int);
    if t >= 0 {
        vstd::arithmetic::div_mod::lemma_mod_pos_bound(t, s.len() as int);
    }
    assert(0 <= k < s.len());
    assert('a' <= s[k] <= 'z');
}

} // verus!
