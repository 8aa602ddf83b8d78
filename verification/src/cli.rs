use crate::recommend::plus_bytes;
use crate::scanner::{views, ProjectInfo, ProjectView};
use crate::text::{
    find_space, find_spaces, skip_space, skip_spaces, slice_to_string, to_chars, trim_end,
};
use crate::tui::lower_text;
use crate::utils::{digits_value, is_digit, skip_digits};
use vstd::prelude::*;
use vstd::string::*;

verus! {

/// The longest path that a progress line shows in full.
pub const PROGRESS_PATH_WIDTH: usize = 50;

/// The longest path that a table shows in full.
pub const TABLE_PATH_WIDTH: usize = 60;

/// A path as it is shown where at most `width` characters fit: in full if
/// it fits, else three dots and its end, `width` characters in all.
pub open spec fn shortened(path: Seq<char>, width: nat) -> Seq<char> {
    if path.len() > width && width >= 3 {
        seq!['.', '.', '.'] + path.subrange(path.len() - (width - 3), path.len() as int)
    } else {
        path
    }
}

/// A path as it is shown where at most `width` characters fit.
pub fn shorten_path(path: &str, width: usize) -> (short: String)
    ensures
        short@ == shortened(path@, width as nat),
{
    let v = to_chars(path);
    if v.len() > width && width >= 3 {
        let mut out = "...".to_owned();
        proof {
            reveal_strlit("...");
            assert(out@ =~= seq!['.', '.', '.']);
        }
        let tail = slice_to_string(&v, v.len() - (width - 3), v.len());
        out.append(tail.as_str());
        out
    } else {
        path.to_owned()
    }
}

/// The sizes of the first `n` targets together, stopping at the greatest value.
pub open spec fn sizes_upto(c: Seq<ProjectView>, n: int) -> u64
    decreases n,
{
    if n <= 0 {
        0
    } else {
        plus_bytes(sizes_upto(c, n - 1), c[n - 1].size)
    }
}

/// The sizes of the targets together.
pub fn total_size(projects: &Vec<ProjectInfo>) -> (total: u64)
    ensures
        total == sizes_upto(views(projects@), projects@.len() as int),
{
    let ghost c = views(projects@);
    let mut total: u64 = 0;
    let mut i: usize = 0;
    while i < projects.len()
        invariant
            i <= projects.len(),
            c == views(projects@),
            total == sizes_upto(c, i as int),
        decreases projects.len() - i,
    {
        assert(c[i as int] == projects@[i as int]@);
        total = total.saturating_add(projects[i].size);
        i += 1;
    }
    total
}

/// What a word of an answer selects among `count` targets: the target
/// whose number, counted from one, the word spells in digits, with or
/// without a plus sign before them; nothing for any other word and for a
/// number that is no target's.
pub open spec fn word_choice(s: Seq<char>, from: int, to: int, count: nat) -> Option<usize> {
    let start = if from < to && s[from] == '+' {
        from + 1
    } else {
        from
    };
    if start < to && skip_digits(s, start, to) == to && 1 <= digits_value(s, start, to) <= count {
        Some((digits_value(s, start, to) - 1) as usize)
    } else {
        None
    }
}

/// The targets that the words of `s[from..to]` select, in the order of the words.
pub open spec fn chosen_from(s: Seq<char>, from: int, to: int, count: nat) -> Seq<usize>
    decreases to - from,
{
    let a = skip_space(s, from, to);
    if a >= to || a < from {
        seq![]
    } else {
        let b = find_space(s, a, to);
        let head = match word_choice(s, a, b, count) {
            Some(i) => seq![i],
            None => seq![],
        };
        if a < b && from < b && b <= to {
            head + chosen_from(s, b, to, count)
        } else {
            head
        }
    }
}

/// The positions `0..n` in order.
pub open spec fn all_positions(n: nat) -> Seq<usize> {
    Seq::new(n, |i: int| i as usize)
}

/// What an answer to the question which of `count` targets to clean
/// selects. The answer is trimmed and its case ignored: `all` selects every
/// target, `none` and the empty answer select nothing, and any other answer
/// selects the targets that its words number, counted from one.
pub open spec fn selection(answer: Seq<char>, count: nat) -> Seq<usize> {
    let a = skip_space(answer, 0, answer.len() as int);
    let b = crate::text::back_space(answer, a, answer.len() as int);
    let word = lower_text(answer.subrange(a, b));
    if word.len() == 0 || word == "none"@ {
        seq![]
    } else if word == "all"@ {
        all_positions(count)
    } else {
        chosen_from(answer, a, b, count)
    }
}

/// The number that the digits `v[from..to]` spell, or nothing where it is
/// above `limit`.
fn small_number(v: &Vec<char>, from: usize, to: usize, limit: usize) -> (n: Option<usize>)
    requires
        from <= to <= v.len(),
        forall|k: int| from <= k < to ==> is_digit(v@[k]),
    ensures
        n matches Some(x) ==> x == digits_value(v@, from as int, to as int) && x <= limit,
        n is None ==> digits_value(v@, from as int, to as int) > limit,
{
    let mut acc: u128 = 0;
    let mut k = from;
    while k < to
        invariant
            from <= k <= to,
            to <= v.len(),
            forall|j: int| from <= j < to ==> is_digit(v@[j]),
            acc == digits_value(v@, from as int, k as int),
            acc <= limit,
        decreases to - k,
    {
        let d: u128 = (v[k] as u32 - '0' as u32) as u128;
        assert(digits_value(v@, from as int, k + 1) == acc * 10 + d);
        if acc * 10 + d > limit as u128 {
            proof {
                crate::utils::lemma_digits_grow(v@, from as int, k + 1, to as int);
            }
            return None;
        }
        acc = acc * 10 + d;
        k += 1;
    }
    Some(acc as usize)
}

/// What the word `v[from..to]` selects among `count` targets.
fn choice_of_word(v: &Vec<char>, from: usize, to: usize, count: usize) -> (r: Option<usize>)
    requires
        from <= to <= v.len(),
    ensures
        r == word_choice(v@, from as int, to as int, count as nat),
{
    let start = if from < to && v[from] == '+' {
        from + 1
    } else {
        from
    };
    if start >= to {
        return None;
    }
    let mut k = start;
    while k < to && '0' <= v[k] && v[k] <= '9'
        invariant
            start <= k <= to,
            to <= v.len(),
            skip_digits(v@, start as int, to as int) == skip_digits(v@, k as int, to as int),
            forall|j: int| start <= j < k ==> is_digit(v@[j]),
        decreases to - k,
    {
        k += 1;
    }
    if k != to {
        return None;
    }
    match small_number(v, start, to, count) {
        Some(n) => if n >= 1 {
            Some(n - 1)
        } else {
            None
        },
        None => None,
    }
}

/// The targets, by position, that an answer selects among `count` targets.
pub fn parse_selection(answer: &str, count: usize) -> (picked: Vec<usize>)
    ensures
        picked@ == selection(answer@, count as nat),
        forall|k: int| 0 <= k < picked@.len() ==> #[trigger] picked@[k] < count,
{
    let v = to_chars(answer);
    let a = skip_spaces(&v, 0, v.len());
    let b = trim_end(&v, a, v.len());
    let mut word: Vec<char> = Vec::new();
    let mut i = a;
    while i < b
        invariant
            a <= i <= b,
            b <= v.len(),
            word@ == lower_text(v@.subrange(a as int, i as int)),
        decreases b - i,
    {
        let c = v[i];
        let l = if 'A' <= c && c <= 'Z' {
            ((c as u32 + 32) as u8) as char
        } else {
            c
        };
        word.push(l);
        assert(word@ =~= lower_text(v@.subrange(a as int, i + 1)));
        i += 1;
    }
    let mut picked: Vec<usize> = Vec::new();
    if word.len() == 0 || crate::text::chars_eq_str(&word, "none") {
        return picked;
    }
    if crate::text::chars_eq_str(&word, "all") {
        let mut k: usize = 0;
        while k < count
            invariant
                k <= count,
                picked@ == all_positions(k as nat),
            decreases count - k,
        {
            picked.push(k);
            assert(picked@ =~= all_positions((k + 1) as nat));
            k += 1;
        }
        return picked;
    }
    let mut pos = a;
    let mut done = false;
    assert(picked@ + chosen_from(v@, a as int, b as int, count as nat) =~= chosen_from(
        v@,
        a as int,
        b as int,
        count as nat,
    ));
    while !done
        invariant
            a <= pos <= b,
            b <= v.len(),
            forall|k: int| 0 <= k < picked@.len() ==> #[trigger] picked@[k] < count,
            !done ==> chosen_from(v@, a as int, b as int, count as nat) == picked@ + chosen_from(
                v@,
                pos as int,
                b as int,
                count as nat,
            ),
            done ==> chosen_from(v@, a as int, b as int, count as nat) == picked@,
        decreases b - pos + (if done { 0int } else { 1int }),
    {
        let ghost before = picked@;
        let start = skip_spaces(&v, pos, b);
        if start >= b {
            assert(before + Seq::<usize>::empty() =~= before);
            done = true;
        } else {
            let end = find_spaces(&v, start, b);
            let choice = choice_of_word(&v, start, end, count);
            if let Some(at) = choice {
                picked.push(at);
            }
            let ghost head: Seq<usize> = match word_choice(
                v@,
                start as int,
                end as int,
                count as nat,
            ) {
                Some(i) => seq![i],
                None => seq![],
            };
            assert(picked@ =~= before + head);
            if start < end {
                assert(before + (head + chosen_from(v@, end as int, b as int, count as nat)) =~= (
                before + head) + chosen_from(v@, end as int, b as int, count as nat));
                pos = end;
            } else {
                done = true;
            }
        }
    }
    picked
}

/// Copies of the targets that an answer selects, in the order of the answer.
pub fn select_projects(projects: &Vec<ProjectInfo>, answer: &str) -> (out: Vec<ProjectInfo>)
    ensures
        views(out@) == crate::scanner::arranged(
            views(projects@),
            crate::order::positions(selection(answer@, projects@.len())),
        ),
{
    let picked = parse_selection(answer, projects.len());
    crate::scanner::arrange(projects, &picked)
}

} // verus!
