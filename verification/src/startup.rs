//! What happens on start: applying the default filter, choosing a project
//! when none is configured, and recording the choice in the configuration.
use vstd::prelude::*;

use crate::api::types::ProjectListEntry;
use crate::model::filter::{Filter, FilterView, filter_matches};
use crate::model::project_item::{ItemView, ProjectItem, items_view, lemma_items_view_push};
use crate::text::{
    chars_of, decimal, has_char, has_prefix, join, parse_usize, runs_view, trim,
};

verus! {

// ---------------------------------------------------------------------------
// Default filter
// ---------------------------------------------------------------------------

/// The items of `s` that `f` matches, in order.
pub open spec fn matching_items(f: FilterView, s: Seq<ItemView>) -> Seq<ItemView>
    decreases s.len(),
{
    if s.len() == 0 {
        seq![]
    } else {
        let rest = matching_items(f, s.drop_last());
        if filter_matches(f, s.last()) {
            rest.push(s.last())
        } else {
            rest
        }
    }
}

/// The items to show on start: all of them when the default filter is
/// empty, else those it matches, in order.
pub fn apply_default_filter(filter: &Filter, items: Vec<ProjectItem>) -> (r: Vec<ProjectItem>)
    ensures
        items_view(r@) == matching_items(filter@, items_view(items@)),
{
    let ghost all = items_view(items@);
    if filter.is_empty() {
        proof {
            law_empty_default_filter_keeps_all(filter@, all);
        }
        return items;
    }
    let mut items = items;
    // Popping yields the items from the last; reverse them first.
    let n: usize = items.len();
    let mut rev: Vec<ProjectItem> = Vec::new();
    while items.len() > 0
        invariant
            items@.len() + rev@.len() == n,
            n == all.len(),
            forall|k: int| 0 <= k < items@.len() ==> #[trigger] items@[k]@ == all[k],
            forall|k: int| 0 <= k < rev@.len() ==> #[trigger] rev@[k]@ == all[n - 1 - k],
        decreases items@.len(),
    {
        let x = items.pop().unwrap();
        rev.push(x);
    }
    let mut out: Vec<ProjectItem> = Vec::new();
    let mut i: usize = 0;
    while rev.len() > 0
        invariant
            i + rev@.len() == n,
            n == all.len(),
            forall|k: int| 0 <= k < rev@.len() ==> #[trigger] rev@[k]@ == all[n - 1 - k],
            items_view(out@) == matching_items(filter@, all.take(i as int)),
        decreases rev@.len(),
    {
        let x = rev.pop().unwrap();
        assert(x@ == all[i as int]);
        assert(all.take(i + 1).drop_last() =~= all.take(i as int));
        assert(all.take(i + 1).last() == all[i as int]);
        let keep = filter.matches(&x);
        if keep {
            let ghost before = out@;
            out.push(x);
            proof {
                lemma_items_view_push(before, x);
            }
        }
        i = i + 1;
    }
    assert(all.take(n as int) =~= all);
    out
}

/// A default filter that sets no condition keeps every item, in order.
pub proof fn law_empty_default_filter_keeps_all(f: FilterView, s: Seq<ItemView>)
    requires
        crate::model::filter::filter_is_empty(f),
    ensures
        matching_items(f, s) == s,
    decreases s.len(),
{
    if s.len() > 0 {
        law_empty_default_filter_keeps_all(f, s.drop_last());
        assert(s.drop_last().push(s.last()) =~= s);
    }
}

/// Every item kept by the default filter is matched by it, every item it
/// matches is kept, and no more items come out than went in.
pub proof fn law_default_filter_keeps_exactly_matches(f: FilterView, s: Seq<ItemView>)
    ensures
        forall|i: int| 0 <= i < matching_items(f, s).len() ==> filter_matches(f, #[trigger] matching_items(f, s)[i]),
        forall|i: int| 0 <= i < s.len() && filter_matches(f, #[trigger] s[i]) ==> matching_items(f, s).contains(s[i]),
        matching_items(f, s).len() <= s.len(),
    decreases s.len(),
{
    if s.len() > 0 {
        let r = s.drop_last();
        law_default_filter_keeps_exactly_matches(f, r);
        let m = matching_items(f, s);
        let mr = matching_items(f, r);
        assert forall|i: int| 0 <= i < m.len() implies filter_matches(f, #[trigger] m[i]) by {
            if i < mr.len() {
                assert(m[i] == mr[i]);
            }
        }
        assert forall|i: int| 0 <= i < s.len() && filter_matches(f, #[trigger] s[i]) implies m.contains(s[i]) by {
            if i < r.len() {
                assert(r[i] == s[i]);
                let k: int = choose|k: int| 0 <= k < mr.len() && mr[k] == r[i];
                assert(m[k] == mr[k]);
            } else {
                assert(m[m.len() - 1] == s.last());
            }
        }
    }
}

// ---------------------------------------------------------------------------
// Choosing a project
// ---------------------------------------------------------------------------

/// The projects of `s` that are not closed, in order.
pub open spec fn open_entries(s: Seq<ProjectListEntry>) -> Seq<ProjectListEntry>
    decreases s.len(),
{
    if s.len() == 0 {
        seq![]
    } else {
        let rest = open_entries(s.drop_last());
        if !s.last().closed {
            rest.push(s.last())
        } else {
            rest
        }
    }
}

/// The projects that can be chosen: those not closed, in order.
pub fn open_projects(projects: &Vec<ProjectListEntry>) -> (r: Vec<ProjectListEntry>)
    ensures
        r@ == open_entries(projects@),
{
    let mut r: Vec<ProjectListEntry> = Vec::new();
    let mut i: usize = 0;
    while i < projects.len()
        invariant
            i <= projects@.len(),
            r@ == open_entries(projects@.take(i as int)),
        decreases projects@.len() - i,
    {
        assert(projects@.take(i + 1).drop_last() =~= projects@.take(i as int));
        assert(projects@.take(i + 1).last() == projects@[i as int]);
        if !projects[i].closed {
            r.push(projects[i].duplicate());
        }
        i = i + 1;
    }
    assert(projects@.take(projects@.len() as int) =~= projects@);
    r
}

/// The position chosen by typing `input` when `count` projects are listed
/// as 1 to `count`: the input without surrounding white space must read as
/// a number in that range; the result counts from zero.
pub open spec fn chosen_position(input: Seq<char>, count: nat) -> Option<nat> {
    match parse_usize(trim(input)) {
        Some(n) => if 1 <= n <= count { Some((n - 1) as nat) } else { None },
        None => None,
    }
}

/// The position chosen by typing `input`, or none when the input is invalid.
pub fn parse_selection(input: &str, count: usize) -> (r: Option<usize>)
    ensures
        match chosen_position(input@, count as nat) {
            Some(p) => r == Some(p as usize),
            None => r is None,
        },
{
    let t = crate::text::trim_chars(&chars_of(input));
    match crate::text::parse_usize_chars(&t) {
        Some(n) => if 1 <= n && n <= count {
            Some(n - 1)
        } else {
            None
        },
        None => None,
    }
}

// ---------------------------------------------------------------------------
// Recording the chosen project
// ---------------------------------------------------------------------------

/// A line without a trailing carriage return.
pub open spec fn strip_cr(l: Seq<char>) -> Seq<char> {
    if l.len() > 0 && l.last() == '\r' {
        l.drop_last()
    } else {
        l
    }
}

/// Reading `s` line by line: the finished lines, and the line in progress.
pub open spec fn line_scan(s: Seq<char>) -> (Seq<Seq<char>>, Seq<char>)
    decreases s.len(),
{
    if s.len() == 0 {
        (seq![], seq![])
    } else {
        let (done, cur) = line_scan(s.drop_last());
        if s.last() == '\n' {
            (done.push(strip_cr(cur)), seq![])
        } else {
            (done, cur.push(s.last()))
        }
    }
}

/// The lines of `s`, as `str::lines` gives them: split at `\n` or `\r\n`,
/// without a last empty line after a final line ending.
pub open spec fn text_lines(s: Seq<char>) -> Seq<Seq<char>> {
    let (done, cur) = line_scan(s);
    if cur.len() > 0 {
        done.push(cur)
    } else {
        done
    }
}

/// `owner`
pub open spec fn owner_word() -> Seq<char> {
    seq!['o', 'w', 'n', 'e', 'r']
}

/// `number`
pub open spec fn number_word() -> Seq<char> {
    seq!['n', 'u', 'm', 'b', 'e', 'r']
}

/// A line that sets the owner of the project: it begins with `owner` and
/// holds a `=`.
pub open spec fn is_owner_line(l: Seq<char>) -> bool {
    has_prefix(l, owner_word()) && has_char(l, '=')
}

/// `number = N`
pub open spec fn number_line(n: u32) -> Seq<char> {
    number_word() + seq![' ', '=', ' '] + decimal(n as nat)
}

/// The lines with `number = N` after the owner line at `i`: it replaces the
/// next line when that line, without leading white space, begins with
/// `number`; else it is inserted after the owner line.
pub open spec fn edited_lines(ls: Seq<Seq<char>>, i: int, n: u32) -> Seq<Seq<char>> {
    if i + 1 < ls.len() && has_prefix(trim(ls[i + 1]), number_word()) {
        ls.update(i + 1, number_line(n))
    } else {
        ls.insert(i + 1, number_line(n))
    }
}

/// The lines of `s`.
pub fn split_lines(s: &Vec<char>) -> (r: Vec<Vec<char>>)
    ensures
        runs_view(r@) == text_lines(s@),
{
    let mut done: Vec<Vec<char>> = Vec::new();
    let mut cur: Vec<char> = Vec::new();
    let mut i: usize = 0;
    while i < s.len()
        invariant
            i <= s@.len(),
            line_scan(s@.take(i as int)) == (runs_view(done@), cur@),
        decreases s@.len() - i,
    {
        let c = s[i];
        let ghost before = runs_view(done@);
        let ghost old_cur = cur@;
        assert(s@.take(i + 1).drop_last() =~= s@.take(i as int));
        assert(s@.take(i + 1).last() == c);
        if c == '\n' {
            let mut line = cur;
            if line.len() > 0 && line[line.len() - 1] == '\r' {
                line.pop();
            }
            assert(line@ =~= strip_cr(old_cur));
            done.push(line);
            cur = Vec::new();
            assert(runs_view(done@) =~= before.push(strip_cr(old_cur)));
            assert(cur@ =~= Seq::<char>::empty());
        } else {
            cur.push(c);
        }
        i = i + 1;
    }
    assert(s@.take(s@.len() as int) =~= s@);
    if cur.len() > 0 {
        let ghost before = runs_view(done@);
        let ghost last = cur@;
        done.push(cur);
        assert(runs_view(done@) =~= before.push(last));
    }
    done
}

/// The position of the first owner line.
fn first_owner_line(lines: &Vec<Vec<char>>, owner_k: &Vec<char>) -> (r: Option<usize>)
    requires
        owner_k@ == owner_word(),
    ensures
        match r {
            None => forall|j: int|
                0 <= j < lines@.len() ==> !is_owner_line(#[trigger] runs_view(lines@)[j]),
            Some(i) => i < lines@.len() && is_owner_line(runs_view(lines@)[i as int])
                && forall|j: int| 0 <= j < i ==> !is_owner_line(#[trigger] runs_view(lines@)[j]),
        },
{
    let ghost ls = runs_view(lines@);
    let mut i: usize = 0;
    while i < lines.len()
        invariant
            i <= lines@.len(),
            ls == runs_view(lines@),
            owner_k@ == owner_word(),
            forall|j: int| 0 <= j < i ==> !is_owner_line(#[trigger] ls[j]),
        decreases lines@.len() - i,
    {
        assert(lines@[i as int]@ == ls[i as int]);
        if crate::text::starts_with_chars(&lines[i], owner_k) && crate::text::has_char_in(&lines[i], '=') {
            return Some(i);
        }
        i = i + 1;
    }
    None
}

/// Write `number = N` into the `[project]` section of the configuration
/// text: after the first owner line, replacing a `number` line that follows
/// it. The lines are joined by `\n`, with a final `\n`. None when there is
/// no owner line.
pub fn set_project_number(content: &str, number: u32) -> (r: Option<String>)
    ensures
        match r {
            None => forall|i: int|
                0 <= i < text_lines(content@).len() ==> !is_owner_line(#[trigger] text_lines(content@)[i]),
            Some(out) => exists|i: int|
                0 <= i < text_lines(content@).len() && is_owner_line(#[trigger] text_lines(content@)[i])
                    && (forall|j: int| 0 <= j < i ==> !is_owner_line(#[trigger] text_lines(content@)[j]))
                    && out@ == join(edited_lines(text_lines(content@), i, number), seq!['\n']) + seq!['\n'],
        },
{
    proof {
        reveal_strlit("owner");
        reveal_strlit("number");
        reveal_strlit("number = ");
        assert("owner"@ =~= owner_word());
        assert("number"@ =~= number_word());
        assert("number = "@ =~= number_word() + seq![' ', '=', ' ']);
    }
    let owner_k = chars_of("owner");
    let number_k = chars_of("number");
    let text = chars_of(content);
    let mut lines = split_lines(&text);
    let ghost ls = text_lines(content@);
    let found = first_owner_line(&lines, &owner_k);
    if found.is_none() {
        return None;
    }
    let i: usize = found.unwrap();
    let count: usize = lines.len();
    assert(i < count);
    assert(is_owner_line(ls[i as int]));
    let mut new_line = chars_of("number = ");
    crate::text::push_decimal(&mut new_line, number as u64);
    assert(new_line@ == number_line(number));
    let ghost views = runs_view(lines@);
    let next: usize = i + 1;
    let mut replace = false;
    if next < lines.len() {
        let t = crate::text::trim_chars(&lines[next]);
        replace = crate::text::starts_with_chars(&t, &number_k);
    }
    if replace {
        assert(lines@[i + 1]@ == ls[i + 1]);
        lines.set(i + 1, new_line);
        assert(runs_view(lines@) =~= edited_lines(ls, i as int, number));
    } else {
        if i + 1 < lines.len() {
            assert(lines@[i + 1]@ == ls[i + 1]);
        }
        lines.insert(i + 1, new_line);
        assert(runs_view(lines@) =~= edited_lines(ls, i as int, number));
    }
    let mut sep: Vec<char> = Vec::new();
    sep.push('\n');
    assert(sep@ =~= seq!['\n']);
    let mut out = crate::text::join_chars(&lines, &sep);
    out.push('\n');
    Some(crate::text::string_of(&out))
}

// ---------------------------------------------------------------------------
// Laws
// ---------------------------------------------------------------------------

/// Typing the number `n` of a listed project, with any white space around
/// it, chooses that project: position `n - 1`. In particular typing `count`
/// chooses the last one.
pub proof fn law_typing_a_listed_number_chooses_it(pre: Seq<char>, n: nat, post: Seq<char>, count: nat)
    requires
        1 <= n <= count,
        count <= usize::MAX,
        forall|i: int| 0 <= i < pre.len() ==> crate::text::is_white_space(#[trigger] pre[i]),
        forall|i: int| 0 <= i < post.len() ==> crate::text::is_white_space(#[trigger] post[i]),
    ensures
        chosen_position(pre + decimal(n) + post, count) == Some((n - 1) as nat),
        chosen_position(decimal(n), count) == Some((n - 1) as nat),
{
    let d = decimal(n);
    crate::text::lemma_decimal_digits(n);
    crate::text::lemma_decimal_no_white_space(n);
    crate::text::lemma_trim_surrounded(pre, d, post);
    let e: Seq<char> = seq![];
    crate::text::lemma_trim_surrounded(e, d, e);
    assert(e + d + e =~= d);
    assert(crate::text::is_digit(d[0]));
    assert(d[0] != '+');
    assert(parse_usize(d) == Some(n));
}

/// Typing a number outside `1..=count` chooses nothing.
pub proof fn law_typing_an_unlisted_number_chooses_nothing(n: nat, count: nat)
    requires
        n == 0 || n > count,
    ensures
        chosen_position(decimal(n), count) is None,
{
    let d = decimal(n);
    crate::text::lemma_decimal_digits(n);
    crate::text::lemma_decimal_no_white_space(n);
    let e: Seq<char> = seq![];
    crate::text::lemma_trim_surrounded(e, d, e);
    assert(e + d + e =~= d);
    assert(crate::text::is_digit(d[0]));
}

/// Reading characters other than `\n` only extends the line in progress.
proof fn lemma_scan_without_newline(p: Seq<char>, t: Seq<char>)
    requires
        forall|i: int| 0 <= i < t.len() ==> #[trigger] t[i] != '\n',
    ensures
        line_scan(p + t).0 == line_scan(p).0,
        line_scan(p + t).1 == line_scan(p).1 + t,
    decreases t.len(),
{
    if t.len() == 0 {
        assert(p + t =~= p);
        assert(line_scan(p).1 + t =~= line_scan(p).1);
    } else {
        let t0 = t.drop_last();
        assert forall|i: int| 0 <= i < t0.len() implies #[trigger] t0[i] != '\n' by {
            assert(t0[i] == t[i]);
        }
        lemma_scan_without_newline(p, t0);
        assert((p + t).drop_last() =~= p + t0);
        assert((p + t).last() == t.last());
        assert(line_scan(p).1 + t0 + seq![t.last()] =~= line_scan(p).1 + t);
        assert((line_scan(p).1 + t0).push(t.last()) =~= line_scan(p).1 + t);
    }
}

/// Text after the last line ending, when there is any, is a line too: the
/// lines of `p + t`, where `p` is empty or ends with `\n` and `t` holds no
/// `\n`, are those of `p` followed by `t`.
pub proof fn law_last_line_without_ending_is_a_line(p: Seq<char>, t: Seq<char>)
    requires
        p.len() == 0 || p.last() == '\n',
        t.len() > 0,
        forall|i: int| 0 <= i < t.len() ==> #[trigger] t[i] != '\n',
    ensures
        text_lines(p + t) == text_lines(p).push(t),
{
    lemma_scan_without_newline(p, t);
    if p.len() == 0 {
        assert(line_scan(p).1 =~= Seq::<char>::empty());
    } else {
        assert(line_scan(p).1 =~= Seq::<char>::empty());
    }
    assert(Seq::<char>::empty() + t =~= t);
}

/// A line ended by `\n` (or `\r\n`) is a line, without its ending: the lines
/// of `p + t + "\n"`, where `p` is empty or ends with `\n` and `t` holds no
/// `\n`, are those of `p` followed by `t` without a final `\r`.
pub proof fn law_line_ending_closes_a_line(p: Seq<char>, t: Seq<char>)
    requires
        p.len() == 0 || p.last() == '\n',
        forall|i: int| 0 <= i < t.len() ==> #[trigger] t[i] != '\n',
    ensures
        text_lines(p + t + seq!['\n']) == text_lines(p).push(strip_cr(t)),
{
    lemma_scan_without_newline(p, t);
    assert(line_scan(p).1 =~= Seq::<char>::empty());
    assert(Seq::<char>::empty() + t =~= t);
    let s = p + t + seq!['\n'];
    assert(s.drop_last() =~= p + t);
    assert(s.last() == '\n');
}

/// A text holding no `\n` is a single line, when it is not empty.
pub proof fn law_text_without_newline_is_one_line(t: Seq<char>)
    requires
        t.len() > 0,
        forall|i: int| 0 <= i < t.len() ==> #[trigger] t[i] != '\n',
    ensures
        text_lines(t) == seq![t],
{
    let e: Seq<char> = seq![];
    law_last_line_without_ending_is_a_line(e, t);
    assert(e + t =~= t);
    assert(text_lines(e) =~= Seq::<Seq<char>>::empty());
    assert(Seq::<Seq<char>>::empty().push(t) =~= seq![t]);
}

/// Recording the number after the owner line at `i` puts `number = N` right
/// after it and keeps every other line in order: the line after the owner
/// line is replaced when it is a `number` line, else every later line moves
/// down by one.
pub proof fn law_recording_keeps_other_lines(ls: Seq<Seq<char>>, i: int, n: u32)
    requires
        0 <= i < ls.len(),
    ensures
        ({
            let r = edited_lines(ls, i, n);
            let replaced = i + 1 < ls.len() && has_prefix(trim(ls[i + 1]), number_word());
            &&& r[i + 1] == number_line(n)
            &&& forall|j: int| 0 <= j <= i ==> r[j] == ls[j]
            &&& replaced ==> r.len() == ls.len() && forall|j: int| i + 1 < j < ls.len() ==> r[j] == ls[j]
            &&& !replaced ==> r.len() == ls.len() + 1 && forall|j: int| i < j < ls.len() ==> r[j + 1] == ls[j]
        }),
{
}

/// The projects offered are exactly the open ones: none is closed, and
/// every open project is offered.
pub proof fn law_offered_projects_are_the_open_ones(s: Seq<ProjectListEntry>)
    ensures
        forall|i: int| 0 <= i < open_entries(s).len() ==> !(#[trigger] open_entries(s)[i]).closed,
        forall|i: int| 0 <= i < s.len() && !(#[trigger] s[i]).closed ==> open_entries(s).contains(s[i]),
        open_entries(s).len() <= s.len(),
    decreases s.len(),
{
    if s.len() > 0 {
        let r = s.drop_last();
        law_offered_projects_are_the_open_ones(r);
        let m = open_entries(s);
        let mr = open_entries(r);
        assert forall|i: int| 0 <= i < m.len() implies !(#[trigger] m[i]).closed by {
            if i < mr.len() {
                assert(m[i] == mr[i]);
            }
        }
        assert forall|i: int| 0 <= i < s.len() && !(#[trigger] s[i]).closed implies m.contains(s[i]) by {
            if i < r.len() {
                assert(r[i] == s[i]);
                let k: int = choose|k: int| 0 <= k < mr.len() && mr[k] == r[i];
                assert(m[k] == mr[k]);
            } else {
                assert(m[m.len() - 1] == s.last());
            }
        }
    }
}

} // verus!
