//! The item filter: its query language, matching, summary and the default
//! filter taken from the configuration.
use vstd::prelude::*;

use super::project_item::{ItemKind, ItemView, ProjectItem, item_ref, opt_chars};
use crate::config::FilterConfig;
use crate::text::{
    all_digits, ascii_chars, ascii_lower, chars_from, chars_of, contains_run, decimal, has_prefix,
    is_white_space, join, join_chars, lower, lower_chars, runs_view, same_chars, split_words,
    starts_with_chars, string_of, string_of_range, words,
};

verus! {

/// The abstract contents of a `Filter`.
pub struct FilterView {
    pub text: Option<Seq<char>>,
    pub status: Option<Seq<char>>,
    pub assignee: Option<Seq<char>>,
    pub label: Option<Seq<char>>,
    pub kind: Option<ItemKind>,
}

/// Conditions on project items; every condition that is set must hold.
#[derive(Debug, Clone)]
pub struct Filter {
    pub text: Option<String>,
    pub status: Option<String>,
    pub assignee: Option<String>,
    pub label: Option<String>,
    pub kind: Option<ItemKind>,
}

impl View for Filter {
    type V = FilterView;

    open spec fn view(&self) -> FilterView {
        FilterView {
            text: opt_chars(self.text),
            status: opt_chars(self.status),
            assignee: opt_chars(self.assignee),
            label: opt_chars(self.label),
            kind: self.kind,
        }
    }
}

/// The filter with no condition set.
pub open spec fn empty_filter() -> FilterView {
    FilterView { text: None, status: None, assignee: None, label: None, kind: None }
}

impl Default for Filter {
    fn default() -> (f: Filter)
        ensures
            f@ == empty_filter(),
    {
        Filter { text: None, status: None, assignee: None, label: None, kind: None }
    }
}

// ---------------------------------------------------------------------------
// Matching
// ---------------------------------------------------------------------------

/// A free text of the form `#` followed by one or more ASCII digits, which
/// selects an item by its number.
pub open spec fn is_number_query(t: Seq<char>) -> bool {
    t.len() >= 2 && t[0] == '#' && all_digits(t.drop_first())
}

/// The free-text condition `t` holds of `item`. Ignoring case: when `t` is
/// `#` followed by digits, those digits are exactly the item's number;
/// otherwise `t` occurs in the title or in `owner/repo#number`.
pub open spec fn text_matches(t: Seq<char>, item: ItemView) -> bool {
    let lt = lower(t);
    if is_number_query(lt) {
        lt.drop_first() == decimal(item.number as nat)
    } else {
        ||| contains_run(lower(item.title), lt)
        ||| contains_run(lower(item_ref(item)), lt)
    }
}

/// Two strings are equal ignoring case.
pub open spec fn equal_ignoring_case(a: Seq<char>, b: Seq<char>) -> bool {
    lower(a) == lower(b)
}

/// Some entry of `list` equals `v` ignoring case.
pub open spec fn listed_ignoring_case(list: Seq<Seq<char>>, v: Seq<char>) -> bool {
    exists|i: int| 0 <= i < list.len() && equal_ignoring_case(#[trigger] list[i], v)
}

/// The status condition `s` holds of `item`.
pub open spec fn status_matches(s: Seq<char>, item: ItemView) -> bool {
    match item.status {
        Some(x) => equal_ignoring_case(x, s),
        None => false,
    }
}

/// Every condition set in `f` holds of `item`.
pub open spec fn filter_matches(f: FilterView, item: ItemView) -> bool {
    &&& (f.text matches Some(t) ==> text_matches(t, item))
    &&& (f.status matches Some(s) ==> status_matches(s, item))
    &&& (f.assignee matches Some(a) ==> listed_ignoring_case(item.assignees, a))
    &&& (f.label matches Some(l) ==> listed_ignoring_case(item.labels, l))
    &&& (f.kind matches Some(k) ==> item.kind == k)
}

/// No condition is set in `f`.
pub open spec fn filter_is_empty(f: FilterView) -> bool {
    &&& f.text is None
    &&& f.status is None
    &&& f.assignee is None
    &&& f.label is None
    &&& f.kind is None
}

/// Whether some entry of `list` equals `needle` ignoring case, where
/// `needle` is already in lower case.
fn listed(list: &Vec<String>, needle: &Vec<char>, Ghost(v): Ghost<Seq<char>>) -> (r: bool)
    requires
        needle@ == lower(v),
    ensures
        r == listed_ignoring_case(list@.map_values(|s: String| s@), v),
{
    let ghost views = list@.map_values(|s: String| s@);
    let mut i: usize = 0;
    while i < list.len()
        invariant
            i <= list.len(),
            needle@ == lower(v),
            views == list@.map_values(|s: String| s@),
            forall|k: int| 0 <= k < i ==> !equal_ignoring_case(#[trigger] views[k], v),
        decreases list.len() - i,
    {
        let l = crate::text::lower_str(list[i].as_str());
        if crate::text::same_chars(&l, needle) {
            assert(equal_ignoring_case(views[i as int], v));
            return true;
        }
        i = i + 1;
    }
    false
}

impl Filter {
    /// Check if this filter matches a given item. All conditions are AND-combined.
    pub fn matches(&self, item: &ProjectItem) -> (r: bool)
        ensures
            r == filter_matches(self@, item@),
    {
        if let Some(text) = &self.text {
            let t = crate::text::lower_str(text.as_str());
            let by_number = t.len() >= 2 && t[0] == '#' && crate::text::digits_from(&t, 1);
            proof {
                assert(t@.skip(1) =~= t@.drop_first());
            }
            if by_number {
                let rest = crate::text::chars_from(&t, 1);
                let number = crate::text::decimal_chars(item.number);
                if !crate::text::same_chars(&rest, &number) {
                    return false;
                }
            } else {
                let title = crate::text::lower_str(item.title.as_str());
                let title_match = crate::text::contains_chars(&title, &t);
                let reference = crate::text::lower_chars(&item.reference_chars());
                let ref_match = crate::text::contains_chars(&reference, &t);
                if !title_match && !ref_match {
                    return false;
                }
            }
        }
        if let Some(status) = &self.status {
            match &item.status {
                Some(s) => {
                    let a = crate::text::lower_str(s.as_str());
                    let b = crate::text::lower_str(status.as_str());
                    if !crate::text::same_chars(&a, &b) {
                        return false;
                    }
                },
                None => {
                    return false;
                },
            }
        }
        if let Some(assignee) = &self.assignee {
            let a = crate::text::lower_str(assignee.as_str());
            if !listed(&item.assignees, &a, Ghost(assignee@)) {
                return false;
            }
        }
        if let Some(label) = &self.label {
            let l = crate::text::lower_str(label.as_str());
            if !listed(&item.labels, &l, Ghost(label@)) {
                return false;
            }
        }
        if let Some(kind) = &self.kind {
            if item.kind != *kind {
                return false;
            }
        }
        true
    }

    /// Returns true if no conditions are set.
    pub fn is_empty(&self) -> (r: bool)
        ensures
            r == filter_is_empty(self@),
    {
        self.text.is_none() && self.status.is_none() && self.assignee.is_none()
            && self.label.is_none() && self.kind.is_none()
    }
}

// ---------------------------------------------------------------------------
// Query language
// ---------------------------------------------------------------------------

/// `label:`
pub open spec fn label_key() -> Seq<char> {
    seq!['l', 'a', 'b', 'e', 'l', ':']
}

/// `assignee:`
pub open spec fn assignee_key() -> Seq<char> {
    seq!['a', 's', 's', 'i', 'g', 'n', 'e', 'e', ':']
}

/// `status:`
pub open spec fn status_key() -> Seq<char> {
    seq!['s', 't', 'a', 't', 'u', 's', ':']
}

/// `is:`
pub open spec fn is_key() -> Seq<char> {
    seq!['i', 's', ':']
}

/// `pr`
pub open spec fn pr_word() -> Seq<char> {
    seq!['p', 'r']
}

/// `pullrequest`
pub open spec fn pullrequest_word() -> Seq<char> {
    seq!['p', 'u', 'l', 'l', 'r', 'e', 'q', 'u', 'e', 's', 't']
}

/// `issue`
pub open spec fn issue_word() -> Seq<char> {
    seq!['i', 's', 's', 'u', 'e']
}

/// The item kind that a word names, ignoring case: `pr` or `pullrequest`
/// for pull requests, `issue` for issues.
pub open spec fn kind_word(v: Seq<char>) -> Option<ItemKind> {
    let l = lower(v);
    if l == pr_word() || l == pullrequest_word() {
        Some(ItemKind::PullRequest)
    } else if l == issue_word() {
        Some(ItemKind::Issue)
    } else {
        None
    }
}

/// The state of reading a query: the conditions so far and the words kept
/// for the free-text condition.
pub struct QueryState {
    pub filter: FilterView,
    pub parts: Seq<Seq<char>>,
}

/// Reads one word of a query. `label:`, `assignee:` and `status:` set their
/// condition to the rest of the word; `is:` sets the kind when the rest
/// names one; any other word is kept for the free-text condition. A later
/// word overrides an earlier one for the same condition.
pub open spec fn apply_token(st: QueryState, tok: Seq<char>) -> QueryState {
    let f = st.filter;
    if has_prefix(tok, label_key()) {
        QueryState { filter: FilterView { label: Some(tok.skip(6)), ..f }, parts: st.parts }
    } else if has_prefix(tok, assignee_key()) {
        QueryState { filter: FilterView { assignee: Some(tok.skip(9)), ..f }, parts: st.parts }
    } else if has_prefix(tok, status_key()) {
        QueryState { filter: FilterView { status: Some(tok.skip(7)), ..f }, parts: st.parts }
    } else if has_prefix(tok, is_key()) && kind_word(tok.skip(3)) is Some {
        QueryState { filter: FilterView { kind: kind_word(tok.skip(3)), ..f }, parts: st.parts }
    } else {
        QueryState { filter: f, parts: st.parts.push(tok) }
    }
}

/// The state after reading `tokens` in order from the empty filter.
pub open spec fn read_tokens(tokens: Seq<Seq<char>>) -> QueryState
    decreases tokens.len(),
{
    if tokens.len() == 0 {
        QueryState { filter: empty_filter(), parts: seq![] }
    } else {
        apply_token(read_tokens(tokens.drop_last()), tokens.last())
    }
}

/// The filter that a query denotes: the words of the query read in order,
/// and the words kept for free text joined by single spaces.
pub open spec fn parse_query(q: Seq<char>) -> FilterView {
    let st = read_tokens(words(q));
    FilterView {
        text: if st.parts.len() == 0 { None } else { Some(join(st.parts, seq![' '])) },
        ..st.filter
    }
}

/// The characters of a string literal whose characters are already known.
fn literal_chars(s: &str, Ghost(expected): Ghost<Seq<char>>) -> (r: Vec<char>)
    requires
        s@ == expected,
    ensures
        r@ == expected,
{
    chars_of(s)
}

// ---------------------------------------------------------------------------
// Summary
// ---------------------------------------------------------------------------

/// The pieces of the summary of `f`, in the order text, label, assignee,
/// status, kind.
pub open spec fn summary_parts(f: FilterView) -> Seq<Seq<char>> {
    let p0: Seq<Seq<char>> = seq![];
    let p1 = match f.text {
        Some(t) => p0.push(seq!['"'] + t + seq!['"']),
        None => p0,
    };
    let p2 = match f.label {
        Some(l) => p1.push(label_key() + l),
        None => p1,
    };
    let p3 = match f.assignee {
        Some(a) => p2.push(assignee_key() + a),
        None => p2,
    };
    let p4 = match f.status {
        Some(s) => p3.push(status_key() + s),
        None => p3,
    };
    match f.kind {
        Some(ItemKind::Issue) => p4.push(is_key() + issue_word()),
        Some(ItemKind::PullRequest) => p4.push(is_key() + pr_word()),
        None => p4,
    }
}

/// The summary of `f`: its pieces joined by single spaces.
pub open spec fn summary(f: FilterView) -> Seq<char> {
    join(summary_parts(f), seq![' '])
}

/// `key` followed by the characters of `value`.
fn keyed(key: &Vec<char>, value: &String) -> (r: Vec<char>)
    ensures
        r@ == key@ + value@,
{
    let mut r = chars_from(key, 0);
    assert(key@.skip(0) =~= key@);
    let v = chars_of(value.as_str());
    crate::text::append_chars(&mut r, &v);
    r
}

impl Filter {
    /// Parse a filter query string like "label:bug assignee:alice is:pr fix login".
    /// Unrecognized tokens are treated as title text search.
    pub fn parse(query: &str) -> (f: Filter)
        ensures
            f@ == parse_query(query@),
    {
        proof {
            reveal_strlit("label:");
            assert("label:"@ =~= label_key());
            reveal_strlit("assignee:");
            assert("assignee:"@ =~= assignee_key());
            reveal_strlit("status:");
            assert("status:"@ =~= status_key());
            reveal_strlit("is:");
            assert("is:"@ =~= is_key());
            reveal_strlit("pr");
            assert("pr"@ =~= pr_word());
            reveal_strlit("pullrequest");
            assert("pullrequest"@ =~= pullrequest_word());
            reveal_strlit("issue");
            assert("issue"@ =~= issue_word());
        }
        let label_k = literal_chars("label:", Ghost(label_key()));
        let assignee_k = literal_chars("assignee:", Ghost(assignee_key()));
        let status_k = literal_chars("status:", Ghost(status_key()));
        let is_k = literal_chars("is:", Ghost(is_key()));
        let pr_w = literal_chars("pr", Ghost(pr_word()));
        let pullrequest_w = literal_chars("pullrequest", Ghost(pullrequest_word()));
        let issue_w = literal_chars("issue", Ghost(issue_word()));

        let q = chars_of(query);
        let tokens = split_words(&q);
        let ghost wds = words(q@);
        let mut filter = Filter::default();
        let mut parts: Vec<Vec<char>> = Vec::new();
        let mut i: usize = 0;
        while i < tokens.len()
            invariant
                i <= tokens.len(),
                tokens@.len() == wds.len(),
                forall|k: int| 0 <= k < tokens@.len() ==> #[trigger] tokens@[k]@ == wds[k],
                label_k@ == label_key(),
                assignee_k@ == assignee_key(),
                status_k@ == status_key(),
                is_k@ == is_key(),
                pr_w@ == pr_word(),
                pullrequest_w@ == pullrequest_word(),
                issue_w@ == issue_word(),
                filter.text is None,
                filter@ == read_tokens(wds.take(i as int)).filter,
                runs_view(parts@) == read_tokens(wds.take(i as int)).parts,
            decreases tokens.len() - i,
        {
            let tok = &tokens[i];
            let ghost prev = read_tokens(wds.take(i as int));
            assert(wds.take(i + 1).drop_last() =~= wds.take(i as int));
            assert(wds.take(i + 1).last() == tok@);
            let ghost old_parts = runs_view(parts@);
            let mut keep = false;
            if starts_with_chars(tok, &label_k) {
                filter.label = Some(string_of_range(tok, 6, tok.len()));
                assert(tok@.subrange(6, tok@.len() as int) =~= tok@.skip(6));
            } else if starts_with_chars(tok, &assignee_k) {
                filter.assignee = Some(string_of_range(tok, 9, tok.len()));
                assert(tok@.subrange(9, tok@.len() as int) =~= tok@.skip(9));
            } else if starts_with_chars(tok, &status_k) {
                filter.status = Some(string_of_range(tok, 7, tok.len()));
                assert(tok@.subrange(7, tok@.len() as int) =~= tok@.skip(7));
            } else if starts_with_chars(tok, &is_k) {
                let v = chars_from(tok, 3);
                let lv = lower_chars(&v);
                if same_chars(&lv, &pr_w) || same_chars(&lv, &pullrequest_w) {
                    filter.kind = Some(ItemKind::PullRequest);
                } else if same_chars(&lv, &issue_w) {
                    filter.kind = Some(ItemKind::Issue);
                } else {
                    keep = true;
                }
            } else {
                keep = true;
            }
            if keep {
                let copy = chars_from(tok, 0);
                assert(tok@.skip(0) =~= tok@);
                parts.push(copy);
            }
            proof {
                let now = runs_view(parts@);
                if keep {
                    assert(now =~= old_parts.push(tok@));
                } else {
                    assert(now =~= old_parts);
                }
            }
            i = i + 1;
        }
        assert(wds.take(tokens.len() as int) =~= wds);
        if parts.len() > 0 {
            let mut sep: Vec<char> = Vec::new();
            sep.push(' ');
            assert(sep@ =~= seq![' ']);
            let joined = join_chars(&parts, &sep);
            filter.text = Some(string_of(&joined));
        }
        filter
    }

    /// Build a display string summarizing current filter conditions.
    pub fn display_summary(&self) -> (s: String)
        ensures
            s@ == summary(self@),
    {
        proof {
            reveal_strlit("label:");
            assert("label:"@ =~= label_key());
            reveal_strlit("assignee:");
            assert("assignee:"@ =~= assignee_key());
            reveal_strlit("status:");
            assert("status:"@ =~= status_key());
            reveal_strlit("is:issue");
            assert("is:issue"@ =~= is_key() + issue_word());
            reveal_strlit("is:pr");
            assert("is:pr"@ =~= is_key() + pr_word());
        }
        let mut parts: Vec<Vec<char>> = Vec::new();
        let ghost f = self@;
        if let Some(text) = &self.text {
            let mut p: Vec<char> = Vec::new();
            p.push('"');
            let t = chars_of(text.as_str());
            crate::text::append_chars(&mut p, &t);
            p.push('"');
            assert(p@ =~= seq!['"'] + text@ + seq!['"']);
            parts.push(p);
        }
        let ghost p1 = runs_view(parts@);
        if let Some(label) = &self.label {
            let k = literal_chars("label:", Ghost(label_key()));
            parts.push(keyed(&k, label));
        }
        let ghost p2 = runs_view(parts@);
        if let Some(assignee) = &self.assignee {
            let k = literal_chars("assignee:", Ghost(assignee_key()));
            parts.push(keyed(&k, assignee));
        }
        let ghost p3 = runs_view(parts@);
        if let Some(status) = &self.status {
            let k = literal_chars("status:", Ghost(status_key()));
            parts.push(keyed(&k, status));
        }
        let ghost p4 = runs_view(parts@);
        match &self.kind {
            Some(ItemKind::Issue) => {
                parts.push(literal_chars("is:issue", Ghost(is_key() + issue_word())));
            },
            Some(ItemKind::PullRequest) => {
                parts.push(literal_chars("is:pr", Ghost(is_key() + pr_word())));
            },
            None => {},
        }
        proof {
            let sp = summary_parts(f);
            let now = runs_view(parts@);
            assert(now =~= sp);
        }
        let mut sep: Vec<char> = Vec::new();
        sep.push(' ');
        assert(sep@ =~= seq![' ']);
        let joined = join_chars(&parts, &sep);
        string_of(&joined)
    }
}

// ---------------------------------------------------------------------------
// Default filter from the configuration
// ---------------------------------------------------------------------------

/// The kind named by the configured `kind`, ignoring case: `issue`, or `pr`
/// or `pullrequest`; nothing for any other value.
pub open spec fn config_kind(kind: Option<String>) -> Option<ItemKind> {
    match kind {
        Some(k) => kind_word(k@),
        None => None,
    }
}

/// The first configured label, if any.
pub open spec fn first_label(labels: Option<Vec<String>>) -> Option<String> {
    match labels {
        Some(ls) => if ls@.len() > 0 { Some(ls@[0]) } else { None },
        None => None,
    }
}

impl<'a> vstd::std_specs::convert::FromSpecImpl<&'a FilterConfig> for Filter {
    open spec fn obeys_from_spec() -> bool {
        true
    }

    open spec fn from_spec(config: &'a FilterConfig) -> Filter {
        Filter {
            text: None,
            status: config.status,
            assignee: config.assignee,
            label: first_label(config.labels),
            kind: config_kind(config.kind),
        }
    }
}

impl<'a> From<&'a FilterConfig> for Filter {
    /// The default filter from the configuration: its status and assignee,
    /// its first label only, and its kind when it names one.
    fn from(config: &'a FilterConfig) -> (f: Filter) {
        proof {
            reveal_strlit("pr");
            assert("pr"@ =~= pr_word());
            reveal_strlit("pullrequest");
            assert("pullrequest"@ =~= pullrequest_word());
            reveal_strlit("issue");
            assert("issue"@ =~= issue_word());
        }
        let kind = match &config.kind {
            Some(k) => {
                let lk = crate::text::lower_str(k.as_str());
                let pr_w = literal_chars("pr", Ghost(pr_word()));
                let pullrequest_w = literal_chars("pullrequest", Ghost(pullrequest_word()));
                let issue_w = literal_chars("issue", Ghost(issue_word()));
                if same_chars(&lk, &issue_w) {
                    Some(ItemKind::Issue)
                } else if same_chars(&lk, &pr_w) || same_chars(&lk, &pullrequest_w) {
                    Some(ItemKind::PullRequest)
                } else {
                    None
                }
            },
            None => None,
        };
        let label = match &config.labels {
            Some(labels) => if labels.len() > 0 { Some(labels[0].clone()) } else { None },
            None => None,
        };
        let status = match &config.status {
            Some(s) => Some(s.clone()),
            None => None,
        };
        let assignee = match &config.assignee {
            Some(a) => Some(a.clone()),
            None => None,
        };
        Filter { text: None, status, assignee, label, kind }
    }
}

// ---------------------------------------------------------------------------
// Laws
// ---------------------------------------------------------------------------

/// A filter with no condition set matches every item.
pub proof fn law_empty_filter_matches_everything(f: FilterView, item: ItemView)
    requires
        filter_is_empty(f),
    ensures
        filter_matches(f, item),
{
}

/// A query made only of white space has no words.
proof fn lemma_blank_has_no_words(q: Seq<char>)
    requires
        forall|i: int| 0 <= i < q.len() ==> crate::text::is_white_space(#[trigger] q[i]),
    ensures
        words(q) == Seq::<Seq<char>>::empty(),
    decreases q.len(),
{
    if q.len() > 0 {
        let r = q.drop_last();
        assert forall|i: int| 0 <= i < r.len() implies crate::text::is_white_space(#[trigger] r[i]) by {
            assert(r[i] == q[i]);
        }
        lemma_blank_has_no_words(r);
        assert(crate::text::is_white_space(q.last()));
    }
}

/// A query that is empty or made only of white space sets no condition.
pub proof fn law_blank_query_sets_nothing(q: Seq<char>)
    requires
        forall|i: int| 0 <= i < q.len() ==> crate::text::is_white_space(#[trigger] q[i]),
    ensures
        parse_query(q) == empty_filter(),
        filter_is_empty(parse_query(q)),
{
    lemma_blank_has_no_words(q);
    assert(read_tokens(words(q)) == QueryState { filter: empty_filter(), parts: seq![] });
}

/// Two queries with the same words, however they are spaced, denote the
/// same filter.
pub proof fn law_spacing_does_not_matter(q1: Seq<char>, q2: Seq<char>)
    requires
        words(q1) == words(q2),
    ensures
        parse_query(q1) == parse_query(q2),
{
}

/// Conditions that differ only in case select the same items.
pub proof fn law_conditions_ignore_case(f: FilterView, g: FilterView, item: ItemView)
    requires
        f.text is Some <==> g.text is Some,
        f.text is Some ==> lower(f.text.unwrap()) == lower(g.text.unwrap()),
        f.status is Some <==> g.status is Some,
        f.status is Some ==> lower(f.status.unwrap()) == lower(g.status.unwrap()),
        f.assignee is Some <==> g.assignee is Some,
        f.assignee is Some ==> lower(f.assignee.unwrap()) == lower(g.assignee.unwrap()),
        f.label is Some <==> g.label is Some,
        f.label is Some ==> lower(f.label.unwrap()) == lower(g.label.unwrap()),
        f.kind == g.kind,
    ensures
        filter_matches(f, item) == filter_matches(g, item),
{
    if f.assignee is Some {
        let a = f.assignee.unwrap();
        let b = g.assignee.unwrap();
        if listed_ignoring_case(item.assignees, a) {
            let i: int = choose|i: int| 0 <= i < item.assignees.len() && equal_ignoring_case(#[trigger] item.assignees[i], a);
            assert(equal_ignoring_case(item.assignees[i], b));
        }
        if listed_ignoring_case(item.assignees, b) {
            let i: int = choose|i: int| 0 <= i < item.assignees.len() && equal_ignoring_case(#[trigger] item.assignees[i], b);
            assert(equal_ignoring_case(item.assignees[i], a));
        }
    }
    if f.label is Some {
        let a = f.label.unwrap();
        let b = g.label.unwrap();
        if listed_ignoring_case(item.labels, a) {
            let i: int = choose|i: int| 0 <= i < item.labels.len() && equal_ignoring_case(#[trigger] item.labels[i], a);
            assert(equal_ignoring_case(item.labels[i], b));
        }
        if listed_ignoring_case(item.labels, b) {
            let i: int = choose|i: int| 0 <= i < item.labels.len() && equal_ignoring_case(#[trigger] item.labels[i], b);
            assert(equal_ignoring_case(item.labels[i], a));
        }
    }
}

/// Items whose texts differ only in case are selected alike.
pub proof fn law_items_compared_ignoring_case(f: FilterView, a: ItemView, b: ItemView)
    requires
        lower(a.title) == lower(b.title),
        lower(item_ref(a)) == lower(item_ref(b)),
        a.number == b.number,
        a.status is Some <==> b.status is Some,
        a.status is Some ==> lower(a.status.unwrap()) == lower(b.status.unwrap()),
        a.assignees.len() == b.assignees.len(),
        forall|i: int| 0 <= i < a.assignees.len() ==> lower(#[trigger] a.assignees[i]) == lower(b.assignees[i]),
        a.labels.len() == b.labels.len(),
        forall|i: int| 0 <= i < a.labels.len() ==> lower(#[trigger] a.labels[i]) == lower(b.labels[i]),
        a.kind == b.kind,
    ensures
        filter_matches(f, a) == filter_matches(f, b),
{
    if f.assignee is Some {
        let v = f.assignee.unwrap();
        if listed_ignoring_case(a.assignees, v) {
            let i: int = choose|i: int| 0 <= i < a.assignees.len() && equal_ignoring_case(#[trigger] a.assignees[i], v);
            assert(equal_ignoring_case(b.assignees[i], v));
        }
        if listed_ignoring_case(b.assignees, v) {
            let i: int = choose|i: int| 0 <= i < b.assignees.len() && equal_ignoring_case(#[trigger] b.assignees[i], v);
            assert(lower(a.assignees[i]) == lower(b.assignees[i]));
        }
    }
    if f.label is Some {
        let v = f.label.unwrap();
        if listed_ignoring_case(a.labels, v) {
            let i: int = choose|i: int| 0 <= i < a.labels.len() && equal_ignoring_case(#[trigger] a.labels[i], v);
            assert(equal_ignoring_case(b.labels[i], v));
        }
        if listed_ignoring_case(b.labels, v) {
            let i: int = choose|i: int| 0 <= i < b.labels.len() && equal_ignoring_case(#[trigger] b.labels[i], v);
            assert(lower(a.labels[i]) == lower(b.labels[i]));
        }
    }
}

/// Setting more conditions never selects more items: when `g` keeps every
/// condition that `f` sets, an item that `g` matches is matched by `f`.
pub proof fn law_more_conditions_select_fewer(f: FilterView, g: FilterView, item: ItemView)
    requires
        f.text is Some ==> g.text == f.text,
        f.status is Some ==> g.status == f.status,
        f.assignee is Some ==> g.assignee == f.assignee,
        f.label is Some ==> g.label == f.label,
        f.kind is Some ==> g.kind == f.kind,
        filter_matches(g, item),
    ensures
        filter_matches(f, item),
{
}

/// No character of `s` is white space.
pub open spec fn no_white_space(s: Seq<char>) -> bool {
    forall|i: int| 0 <= i < s.len() ==> !is_white_space(#[trigger] s[i])
}

/// A white-space character at the end adds no word.
proof fn lemma_words_after_space(s: Seq<char>, c: char)
    requires
        is_white_space(c),
    ensures
        words(s.push(c)) == words(s),
{
    assert(s.push(c).drop_last() =~= s);
}

/// A word appended after white space (or at the start) is one more word.
proof fn lemma_words_append_word(s: Seq<char>, w: Seq<char>)
    requires
        w.len() > 0,
        no_white_space(w),
        s.len() == 0 || is_white_space(s.last()),
    ensures
        words(s + w) == words(s).push(w),
    decreases w.len(),
{
    let t = s + w;
    assert(!is_white_space(w.last()));
    assert(t.last() == w.last());
    if w.len() == 1 {
        assert(t.drop_last() =~= s);
        if s.len() > 0 {
            assert(t[t.len() - 2] == s.last());
        }
        assert(seq![t.last()] =~= w);
    } else {
        let w0 = w.drop_last();
        assert(no_white_space(w0)) by {
            assert forall|i: int| 0 <= i < w0.len() implies !is_white_space(#[trigger] w0[i]) by {
                assert(w0[i] == w[i]);
            }
        }
        lemma_words_append_word(s, w0);
        assert(t.drop_last() =~= s + w0);
        assert(t[t.len() - 2] == w[w.len() - 2]);
        assert(!is_white_space(w[w.len() - 2]));
        let prev = words(s + w0);
        assert(prev == words(s).push(w0));
        assert(words(t) == prev.update(prev.len() - 1, prev.last().push(t.last())));
        assert(w0.push(w.last()) =~= w);
        assert(words(t) =~= words(s).push(w));
    }
}

/// Words without white space, joined by single spaces, read back as the
/// same words.
proof fn lemma_words_of_join(parts: Seq<Seq<char>>)
    requires
        forall|i: int| 0 <= i < parts.len() ==> (#[trigger] parts[i]).len() > 0 && no_white_space(parts[i]),
    ensures
        words(join(parts, seq![' '])) == parts,
    decreases parts.len(),
{
    if parts.len() == 0 {
        assert(words(Seq::<char>::empty()) =~= parts);
    } else if parts.len() == 1 {
        lemma_words_append_word(Seq::<char>::empty(), parts[0]);
        assert(Seq::<char>::empty() + parts[0] =~= parts[0]);
        assert(words(Seq::<char>::empty()) =~= Seq::<Seq<char>>::empty());
        assert(Seq::<Seq<char>>::empty().push(parts[0]) =~= parts);
    } else {
        let init = parts.drop_last();
        assert forall|i: int| 0 <= i < init.len() implies (#[trigger] init[i]).len() > 0 && no_white_space(init[i]) by {
            assert(init[i] == parts[i]);
        }
        lemma_words_of_join(init);
        let head = join(init, seq![' ']);
        assert(is_white_space(' '));
        lemma_words_after_space(head, ' ');
        assert(head + seq![' '] =~= head.push(' '));
        lemma_words_append_word(head.push(' '), parts.last());
        assert(init.push(parts.last()) =~= parts);
    }
}

/// Reading one more word is applying it to the state so far.
proof fn lemma_read_tokens_push(tokens: Seq<Seq<char>>, t: Seq<char>)
    ensures
        read_tokens(tokens.push(t)) == apply_token(read_tokens(tokens), t),
{
    assert(tokens.push(t).drop_last() =~= tokens);
}

/// `key + value` is a word when `value` is one (or is empty).
proof fn lemma_keyed_word(key: Seq<char>, value: Seq<char>)
    requires
        key.len() > 0,
        no_white_space(key),
        no_white_space(value),
    ensures
        (key + value).len() > 0,
        no_white_space(key + value),
{
    let kv = key + value;
    assert forall|i: int| 0 <= i < kv.len() implies !is_white_space(#[trigger] kv[i]) by {
        if i < key.len() {
            assert(kv[i] == key[i]);
        } else {
            assert(kv[i] == value[i - key.len()]);
        }
    }
}

/// The ASCII kind words are their own lower-case forms.
proof fn lemma_kind_words_lower()
    ensures
        lower(pr_word()) == pr_word(),
        lower(issue_word()) == issue_word(),
        kind_word(pr_word()) == Some(ItemKind::PullRequest),
        kind_word(issue_word()) == Some(ItemKind::Issue),
{
    assert(ascii_chars(pr_word()));
    assert(ascii_chars(issue_word()));
    assert(ascii_lower(pr_word()) =~= pr_word());
    assert(ascii_lower(issue_word()) =~= issue_word());
    assert(issue_word() != pr_word()) by {
        assert(issue_word().len() != pr_word().len());
    }
    assert(issue_word() != pullrequest_word()) by {
        assert(issue_word().len() != pullrequest_word().len());
    }
}

/// Parsing the summary of a filter gives the filter back, when it has no
/// free text and none of its label, assignee and status holds white space.
pub proof fn law_summary_parses_back(f: FilterView)
    requires
        f.text is None,
        f.label matches Some(l) ==> no_white_space(l),
        f.assignee matches Some(a) ==> no_white_space(a),
        f.status matches Some(s) ==> no_white_space(s),
    ensures
        parse_query(summary(f)) == f,
{
    let parts = summary_parts(f);
    let lk = label_key();
    let ak = assignee_key();
    let sk = status_key();
    let ik = is_key();
    assert(no_white_space(lk));
    assert(no_white_space(ak));
    assert(no_white_space(sk));
    assert(no_white_space(ik + issue_word()));
    assert(no_white_space(ik + pr_word()));
    lemma_kind_words_lower();
    let p1: Seq<Seq<char>> = seq![];
    let p2 = match f.label {
        Some(l) => p1.push(lk + l),
        None => p1,
    };
    let p3 = match f.assignee {
        Some(a) => p2.push(ak + a),
        None => p2,
    };
    let p4 = match f.status {
        Some(s) => p3.push(sk + s),
        None => p3,
    };
    assert(parts == match f.kind {
        Some(ItemKind::Issue) => p4.push(ik + issue_word()),
        Some(ItemKind::PullRequest) => p4.push(ik + pr_word()),
        None => p4,
    });
    // Every part is a word.
    if let Some(l) = f.label {
        lemma_keyed_word(lk, l);
    }
    if let Some(a) = f.assignee {
        lemma_keyed_word(ak, a);
    }
    if let Some(s) = f.status {
        lemma_keyed_word(sk, s);
    }
    assert forall|i: int| 0 <= i < parts.len() implies (#[trigger] parts[i]).len() > 0 && no_white_space(parts[i]) by {
    }
    lemma_words_of_join(parts);
    assert(words(summary(f)) == parts);
    // Reading the parts one by one.
    let e = empty_filter();
    let st1 = QueryState { filter: e, parts: seq![] };
    assert(read_tokens(p1) == st1);
    let st2 = match f.label {
        Some(l) => QueryState { filter: FilterView { label: Some(l), ..e }, parts: seq![] },
        None => st1,
    };
    if let Some(l) = f.label {
        lemma_read_tokens_push(p1, lk + l);
        assert((lk + l).take(6) =~= lk);
        assert((lk + l).skip(6) =~= l);
    }
    assert(read_tokens(p2) == st2);
    let st3 = match f.assignee {
        Some(a) => QueryState { filter: FilterView { assignee: Some(a), ..st2.filter }, parts: seq![] },
        None => st2,
    };
    if let Some(a) = f.assignee {
        lemma_read_tokens_push(p2, ak + a);
        let t = ak + a;
        assert(t.take(6)[0] != lk[0]);
        assert(t.take(9) =~= ak);
        assert(t.skip(9) =~= a);
    }
    assert(read_tokens(p3) == st3);
    let st4 = match f.status {
        Some(s) => QueryState { filter: FilterView { status: Some(s), ..st3.filter }, parts: seq![] },
        None => st3,
    };
    if let Some(s) = f.status {
        lemma_read_tokens_push(p3, sk + s);
        let t = sk + s;
        assert(t.take(6)[0] != lk[0]);
        assert(t.take(9)[0] != ak[0] || t.len() < 9);
        assert(!has_prefix(t, ak)) by {
            if ak.len() <= t.len() {
                assert(t.take(9)[0] != ak[0]);
            }
        }
        assert(t.take(7) =~= sk);
        assert(t.skip(7) =~= s);
    }
    assert(read_tokens(p4) == st4);
    match f.kind {
        Some(ItemKind::Issue) => {
            let t = ik + issue_word();
            lemma_read_tokens_push(p4, t);
            assert(t.take(6)[0] != lk[0]);
            assert(!has_prefix(t, ak)) by {
                assert(t.len() < ak.len());
            }
            assert(t.take(7)[0] != sk[0]);
            assert(t.take(3) =~= ik);
            assert(t.skip(3) =~= issue_word());
        },
        Some(ItemKind::PullRequest) => {
            let t = ik + pr_word();
            lemma_read_tokens_push(p4, t);
            assert(!has_prefix(t, lk)) by {
                assert(t.len() < lk.len());
            }
            assert(!has_prefix(t, ak)) by {
                assert(t.len() < ak.len());
            }
            assert(!has_prefix(t, sk)) by {
                assert(t.len() < sk.len());
            }
            assert(t.take(3) =~= ik);
            assert(t.skip(3) =~= pr_word());
        },
        None => {},
    }
    assert(parse_query(summary(f)) =~= f);
}

/// The filter with only the assignee condition `a`.
pub open spec fn only_assignee(a: Seq<char>) -> FilterView {
    FilterView { assignee: Some(a), ..empty_filter() }
}

/// The filter with only the label condition `l`.
pub open spec fn only_label(l: Seq<char>) -> FilterView {
    FilterView { label: Some(l), ..empty_filter() }
}

/// The filter with only the status condition `s`.
pub open spec fn only_status(s: Seq<char>) -> FilterView {
    FilterView { status: Some(s), ..empty_filter() }
}

/// The filter with only the kind condition `k`.
pub open spec fn only_kind(k: ItemKind) -> FilterView {
    FilterView { kind: Some(k), ..empty_filter() }
}

/// The filter with only the free-text condition `t`.
pub open spec fn only_text(t: Seq<char>) -> FilterView {
    FilterView { text: Some(t), ..empty_filter() }
}

/// An item matched by a filter with an assignee condition has an assignee
/// equal to it ignoring case; so an unassigned item never matches one.
pub proof fn law_assignee_condition_needs_that_assignee(f: FilterView, item: ItemView)
    requires
        f.assignee is Some,
        filter_matches(f, item),
    ensures
        item.assignees.len() > 0,
        exists|i: int| 0 <= i < item.assignees.len() && lower(#[trigger] item.assignees[i]) == lower(f.assignee.unwrap()),
{
}

/// An item without assignees never matches an assignee condition.
pub proof fn law_unassigned_item_fails_assignee_condition(f: FilterView, item: ItemView)
    requires
        f.assignee is Some,
        item.assignees.len() == 0,
    ensures
        !filter_matches(f, item),
{
}

/// An item with an assignee equal to `a` ignoring case satisfies the
/// assignee condition `a`, whatever its other assignees.
pub proof fn law_listed_assignee_satisfies_condition(a: Seq<char>, item: ItemView, i: int)
    requires
        0 <= i < item.assignees.len(),
        lower(item.assignees[i]) == lower(a),
    ensures
        filter_matches(only_assignee(a), item),
{
    assert(equal_ignoring_case(item.assignees[i], a));
}

/// An item matched by a filter with a label condition has a label equal to
/// it ignoring case; so an item without labels never matches one.
pub proof fn law_label_condition_needs_that_label(f: FilterView, item: ItemView)
    requires
        f.label is Some,
        filter_matches(f, item),
    ensures
        item.labels.len() > 0,
        exists|i: int| 0 <= i < item.labels.len() && lower(#[trigger] item.labels[i]) == lower(f.label.unwrap()),
{
}

/// An item with a label equal to `l` ignoring case satisfies the label
/// condition `l`.
pub proof fn law_listed_label_satisfies_condition(l: Seq<char>, item: ItemView, i: int)
    requires
        0 <= i < item.labels.len(),
        lower(item.labels[i]) == lower(l),
    ensures
        filter_matches(only_label(l), item),
{
    assert(equal_ignoring_case(item.labels[i], l));
}

/// A status condition holds exactly of the items that have a status equal
/// to it ignoring case; items without a status never satisfy it.
pub proof fn law_status_condition(s: Seq<char>, item: ItemView)
    ensures
        filter_matches(only_status(s), item) <==> (item.status is Some && lower(item.status.unwrap()) == lower(s)),
        item.status is None ==> !filter_matches(only_status(s), item),
{
}

/// A kind condition holds exactly of the items of that kind.
pub proof fn law_kind_condition(k: ItemKind, item: ItemView)
    ensures
        filter_matches(only_kind(k), item) <==> item.kind == k,
{
}

/// A filter matches exactly when each of its set conditions, taken alone,
/// matches.
pub proof fn law_conditions_are_combined_with_and(f: FilterView, item: ItemView)
    ensures
        filter_matches(f, item) == ({
            &&& (f.text matches Some(t) ==> filter_matches(only_text(t), item))
            &&& (f.status matches Some(s) ==> filter_matches(only_status(s), item))
            &&& (f.assignee matches Some(a) ==> filter_matches(only_assignee(a), item))
            &&& (f.label matches Some(l) ==> filter_matches(only_label(l), item))
            &&& (f.kind matches Some(k) ==> filter_matches(only_kind(k), item))
        }),
{
}

/// `#` followed by the decimal rendering of `n` selects exactly the items
/// numbered `n`.
pub proof fn law_number_query_selects_that_number(n: u64, item: ItemView)
    ensures
        filter_matches(only_text(seq!['#'] + decimal(n as nat)), item) <==> item.number == n,
{
    let t = seq!['#'] + decimal(n as nat);
    crate::text::lemma_decimal_digits(n as nat);
    assert forall|i: int| 0 <= i < t.len() implies (#[trigger] t[i] as u32) < 128 by {
        if i > 0 {
            assert(t[i] == decimal(n as nat)[i - 1]);
        }
    }
    assert(ascii_chars(t));
    assert(ascii_lower(t) =~= t) by {
        assert forall|i: int| 0 <= i < t.len() implies #[trigger] ascii_lower(t)[i] == t[i] by {
            if i > 0 {
                assert(t[i] == decimal(n as nat)[i - 1]);
                assert(crate::text::is_digit(decimal(n as nat)[i - 1]));
            }
        }
    }
    assert(lower(t) == t);
    assert(t.drop_first() =~= decimal(n as nat));
    assert(is_number_query(t));
    if decimal(n as nat) == decimal(item.number as nat) {
        crate::text::lemma_decimal_injective(n as nat, item.number as nat);
    }
}

/// A free text that is not a number query holds of every item whose title
/// contains it, ignoring case.
pub proof fn law_text_found_in_title_matches(t: Seq<char>, item: ItemView)
    requires
        !is_number_query(lower(t)),
        contains_run(lower(item.title), lower(t)),
    ensures
        filter_matches(only_text(t), item),
{
}

/// The default filter from the configuration takes its status and assignee
/// as configured, no free text, and the first configured label whenever the
/// list of labels is not empty (none otherwise).
pub proof fn law_default_filter_from_configuration(config: &FilterConfig)
    ensures
        ({
            let f = <Filter as vstd::std_specs::convert::FromSpec<&FilterConfig>>::from_spec(config);
            &&& f.text is None
            &&& f.status == config.status
            &&& f.assignee == config.assignee
            &&& (config.labels is Some && config.labels.unwrap()@.len() > 0 ==> f.label == Some(
                config.labels.unwrap()@[0],
            ))
            &&& (config.labels is Some && config.labels.unwrap()@.len() == 0 ==> f.label is None)
            &&& (config.labels is None ==> f.label is None)
        }),
{
}

/// The configured kind `issue` (in any case) gives issues, `pr` gives pull
/// requests, and no kind gives no kind condition.
pub proof fn law_default_filter_kind(config: &FilterConfig)
    ensures
        ({
            let f = <Filter as vstd::std_specs::convert::FromSpec<&FilterConfig>>::from_spec(config);
            &&& (config.kind is Some && lower(config.kind.unwrap()@) == issue_word() ==> f.kind == Some(
                ItemKind::Issue,
            ))
            &&& (config.kind is Some && lower(config.kind.unwrap()@) == pr_word() ==> f.kind == Some(
                ItemKind::PullRequest,
            ))
            &&& (config.kind is None ==> f.kind is None)
        }),
{
    assert(issue_word() != pr_word()) by {
        assert(issue_word().len() != pr_word().len());
    }
    assert(issue_word() != pullrequest_word()) by {
        assert(issue_word().len() != pullrequest_word().len());
    }
}

/// A free text that is not a number query holds exactly of the items whose
/// title or `owner/repo#number` contains it, ignoring case.
pub proof fn law_text_condition(t: Seq<char>, item: ItemView)
    requires
        !is_number_query(lower(t)),
    ensures
        filter_matches(only_text(t), item) <==> (contains_run(lower(item.title), lower(t))
            || contains_run(lower(item.repo + seq!['#'] + decimal(item.number as nat)), lower(t))),
{
}

/// A single word `label:x`, `assignee:x` or `status:x` (with `x` free of
/// white space) sets exactly that condition to `x`.
pub proof fn law_keyed_word_sets_its_condition(x: Seq<char>)
    requires
        no_white_space(x),
    ensures
        parse_query(label_key() + x) == only_label(x),
        parse_query(assignee_key() + x) == only_assignee(x),
        parse_query(status_key() + x) == only_status(x),
{
    law_summary_parses_back(only_label(x));
    law_summary_parses_back(only_assignee(x));
    law_summary_parses_back(only_status(x));
    assert(summary_parts(only_label(x)) =~= seq![label_key() + x]);
    assert(summary_parts(only_assignee(x)) =~= seq![assignee_key() + x]);
    assert(summary_parts(only_status(x)) =~= seq![status_key() + x]);
}

} // verus!
