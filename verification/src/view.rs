//! Traits of the viewable parts of the client, and the sort, filter and
//! layout commands of its tables.
use vstd::prelude::*;
use crate::structures::Percentage;
use crate::text::{
    ascii_lower, ascii_lower_seq, digit_char, ascii_lowercase_chars, chars_of, decimal, decimal_string, occurs_in,
    push_char, seq_contains, str_contains,
};

verus! {

/// Sort a table by one column.
#[derive(Clone, Copy, Debug, PartialEq, Eq, Structural)]
pub struct TableSortCommand {
    pub column: usize,
    pub direction: SortDirection,
}

#[derive(Clone, Copy, Debug, PartialEq, Eq, Structural)]
pub enum SortDirection {
    Asc,
    Desc,
}

impl Default for SortDirection {
    fn default() -> (r: SortDirection)
        ensures
            r == SortDirection::Asc,
    {
        SortDirection::Asc
    }
}

/// Filter the rows of a table, on all columns or on one.
#[derive(Clone, Debug)]
pub enum TableFilterCommand {
    All(Filter),
    Column { filter: Filter, column: usize },
}

#[derive(Clone, Debug)]
pub enum Filter {
    Contains(FilterString),
    NotContains(FilterString),
    Equal(FilterString),
}

#[derive(Clone, Debug)]
pub enum FilterString {
    CaseSensitive(String),
    CaseInsensitive(String),
}

/// The text of a filter string: `A:` or `a:` for the case mode, then the string.
pub open spec fn readable_filter_string(f: FilterString) -> Seq<char> {
    match f {
        FilterString::CaseSensitive(s) => seq!['A', ':'] + s@,
        FilterString::CaseInsensitive(s) => seq!['a', ':'] + s@,
    }
}

/// The text of a filter: `~`, `!=` or `=`, then its string.
pub open spec fn readable_filter(f: Filter) -> Seq<char> {
    match f {
        Filter::Contains(s) => seq!['~'] + readable_filter_string(s),
        Filter::NotContains(s) => seq!['!', '='] + readable_filter_string(s),
        Filter::Equal(s) => seq!['='] + readable_filter_string(s),
    }
}

/// The text of a filter command: `ALL`, or `COL` and the column number, then the filter.
pub open spec fn readable_filter_command(c: TableFilterCommand) -> Seq<char> {
    match c {
        TableFilterCommand::All(f) => seq!['A', 'L', 'L'] + readable_filter(f),
        TableFilterCommand::Column { filter, column } => seq!['C', 'O', 'L'] + decimal(column as nat)
            + readable_filter(filter),
    }
}

/// A filter string as its parts: whether it heeds case, and its text.
pub open spec fn filter_string_view(f: FilterString) -> (bool, Seq<char>) {
    match f {
        FilterString::CaseSensitive(s) => (true, s@),
        FilterString::CaseInsensitive(s) => (false, s@),
    }
}

/// A filter as its parts: 0 for contains, 1 for not contains, 2 for
/// equal, and its filter string.
pub open spec fn filter_view(f: Filter) -> (int, (bool, Seq<char>)) {
    match f {
        Filter::Contains(s) => (0, filter_string_view(s)),
        Filter::NotContains(s) => (1, filter_string_view(s)),
        Filter::Equal(s) => (2, filter_string_view(s)),
    }
}

/// A filter command as its parts: its column (none for all columns) and its filter.
pub open spec fn filter_command_view(c: TableFilterCommand) -> (Option<usize>, (int, (bool, Seq<char>))) {
    match c {
        TableFilterCommand::All(f) => (None, filter_view(f)),
        TableFilterCommand::Column { filter, column } => (Some(column), filter_view(filter)),
    }
}

proof fn lemma_filter_string_text_determines(a: FilterString, b: FilterString)
    requires
        readable_filter_string(a) == readable_filter_string(b),
    ensures
        filter_string_view(a) == filter_string_view(b),
{
    let ta = readable_filter_string(a);
    let tb = readable_filter_string(b);
    assert(ta[0] == tb[0]);
    assert(ta.skip(2) == tb.skip(2));
    match a {
        FilterString::CaseSensitive(s) => assert(ta.skip(2) =~= s@),
        FilterString::CaseInsensitive(s) => assert(ta.skip(2) =~= s@),
    }
    match b {
        FilterString::CaseSensitive(s) => assert(tb.skip(2) =~= s@),
        FilterString::CaseInsensitive(s) => assert(tb.skip(2) =~= s@),
    }
}

/// The text of a filter string after the filter's sign.
pub open spec fn filter_sign_len(f: Filter) -> int {
    match f {
        Filter::NotContains(_) => 2,
        _ => 1,
    }
}

pub open spec fn filter_inner(f: Filter) -> FilterString {
    match f {
        Filter::Contains(s) => s,
        Filter::NotContains(s) => s,
        Filter::Equal(s) => s,
    }
}

proof fn lemma_filter_text_shape(f: Filter)
    ensures
        readable_filter(f).skip(filter_sign_len(f)) == readable_filter_string(filter_inner(f)),
        readable_filter(f).len() > 0,
        readable_filter(f)[0] == '~' || readable_filter(f)[0] == '!' || readable_filter(f)[0] == '=',
        readable_filter(f)[0] == '~' <==> f is Contains,
        readable_filter(f)[0] == '!' <==> f is NotContains,
{
    assert(readable_filter(f).skip(filter_sign_len(f)) =~= readable_filter_string(filter_inner(f)));
}

proof fn lemma_filter_text_determines(a: Filter, b: Filter)
    requires
        readable_filter(a) == readable_filter(b),
    ensures
        filter_view(a) == filter_view(b),
{
    lemma_filter_text_shape(a);
    lemma_filter_text_shape(b);
    lemma_filter_string_text_determines(filter_inner(a), filter_inner(b));
}

proof fn lemma_decimal_digits(n: nat)
    ensures
        decimal(n).len() > 0,
        forall|i: int| 0 <= i < decimal(n).len() ==> '0' <= #[trigger] decimal(n)[i] <= '9',
    decreases n,
{
    if n >= 10 {
        lemma_decimal_digits(n / 10);
        assert forall|i: int| 0 <= i < decimal(n).len() implies '0' <= #[trigger] decimal(n)[i] <= '9' by {
            if i < decimal(n / 10).len() {
                assert(decimal(n)[i] == decimal(n / 10)[i]);
            }
        }
    }
}

proof fn lemma_digit_char_injective(a: nat, b: nat)
    requires
        a < 10,
        b < 10,
        digit_char(a) == digit_char(b),
    ensures
        a == b,
{
}

proof fn lemma_decimal_injective(n: nat, m: nat)
    requires
        decimal(n) == decimal(m),
    ensures
        n == m,
    decreases n,
{
    if n >= 10 && m >= 10 {
        lemma_decimal_digits(n / 10);
        lemma_decimal_digits(m / 10);
        assert(decimal(n).drop_last() =~= decimal(n / 10));
        assert(decimal(m).drop_last() =~= decimal(m / 10));
        lemma_decimal_injective(n / 10, m / 10);
        assert(decimal(n) == decimal(n / 10).push(digit_char(n % 10)));
        assert(decimal(m) == decimal(m / 10).push(digit_char(m % 10)));
        assert(decimal(n).last() == decimal(m).last());
        let dn: nat = n % 10;
        let dm: nat = m % 10;
        assert(digit_char(dn) == decimal(n).last());
        assert(digit_char(dm) == decimal(m).last());
        lemma_digit_char_injective(dn, dm);
    } else if n < 10 && m < 10 {
        assert(decimal(n) == seq![digit_char(n)]);
        assert(decimal(m) == seq![digit_char(m)]);
        assert(decimal(n)[0] == decimal(m)[0]);
        assert(digit_char(n) == decimal(n)[0]);
        assert(digit_char(m) == decimal(m)[0]);
        lemma_digit_char_injective(n, m);
    } else if n >= 10 {
        lemma_decimal_digits(n / 10);
        assert(decimal(n).len() >= 2);
    } else if m >= 10 {
        lemma_decimal_digits(m / 10);
        assert(decimal(m).len() >= 2);
    }
}

/// Digits followed by text that does not start with a digit: equal texts
/// have equal numbers and equal rests.
proof fn lemma_decimal_prefix(n: nat, x: Seq<char>, m: nat, y: Seq<char>)
    requires
        decimal(n) + x == decimal(m) + y,
        x.len() > 0,
        y.len() > 0,
        !('0' <= x[0] <= '9'),
        !('0' <= y[0] <= '9'),
    ensures
        n == m,
        x == y,
{
    lemma_decimal_digits(n);
    lemma_decimal_digits(m);
    let dn = decimal(n);
    let dm = decimal(m);
    if dn.len() < dm.len() {
        assert((dn + x)[dn.len() as int] == x[0]);
        assert((dm + y)[dn.len() as int] == dm[dn.len() as int]);
    } else if dm.len() < dn.len() {
        assert((dm + y)[dm.len() as int] == y[0]);
        assert((dn + x)[dm.len() as int] == dn[dm.len() as int]);
    } else {
        assert((dn + x).subrange(0, dn.len() as int) =~= dn);
        assert((dm + y).subrange(0, dm.len() as int) =~= dm);
        lemma_decimal_injective(n, m);
        assert((dn + x).skip(dn.len() as int) =~= x);
        assert((dm + y).skip(dm.len() as int) =~= y);
    }
}

/// The readable text of a filter command determines the command: its
/// columns, the kind of its filter, whether it heeds case, and its string.
pub proof fn law_readable_filter_determines_command(a: TableFilterCommand, b: TableFilterCommand)
    requires
        readable_filter_command(a) == readable_filter_command(b),
    ensures
        filter_command_view(a) == filter_command_view(b),
{
    let ta = readable_filter_command(a);
    let tb = readable_filter_command(b);
    assert(ta[0] == tb[0]);
    match (a, b) {
        (TableFilterCommand::All(fa), TableFilterCommand::All(fb)) => {
            assert(ta.skip(3) =~= readable_filter(fa));
            assert(tb.skip(3) =~= readable_filter(fb));
            lemma_filter_text_determines(fa, fb);
        },
        (TableFilterCommand::Column { filter: fa, column: ca }, TableFilterCommand::Column { filter: fb, column: cb }) => {
            lemma_filter_text_shape(fa);
            lemma_filter_text_shape(fb);
            assert(ta.skip(3) =~= decimal(ca as nat) + readable_filter(fa));
            assert(tb.skip(3) =~= decimal(cb as nat) + readable_filter(fb));
            lemma_decimal_prefix(ca as nat, readable_filter(fa), cb as nat, readable_filter(fb));
            lemma_filter_text_determines(fa, fb);
        },
        _ => {},
    }
}

impl TableFilterCommand {
    pub fn as_readable(&self) -> (r: String)
        ensures
            r@ == readable_filter_command(*self),
    {
        let mut out = String::new();
        match self {
            TableFilterCommand::All(f) => {
                push_char(&mut out, 'A');
                push_char(&mut out, 'L');
                push_char(&mut out, 'L');
                let rest = f.as_readable();
                out.append(rest.as_str());
            },
            TableFilterCommand::Column { filter, column } => {
                push_char(&mut out, 'C');
                push_char(&mut out, 'O');
                push_char(&mut out, 'L');
                let col = decimal_string(*column as u128);
                out.append(col.as_str());
                let rest = filter.as_readable();
                out.append(rest.as_str());
            },
        }
        assert(out@ =~= readable_filter_command(*self));
        out
    }

    /// The pattern text of an all-columns, case-insensitive `Contains` filter,
    /// the one shape this rendering handles.
    pub fn as_basic_readable(&self) -> (r: String)
        requires
            self matches TableFilterCommand::All(Filter::Contains(FilterString::CaseInsensitive(_))),
        ensures
            self matches TableFilterCommand::All(Filter::Contains(FilterString::CaseInsensitive(s)))
                && r@ == seq!['[', 'a', '-', 'Z', ']', '*'] + s@ + seq!['*'],
    {
        let mut out = String::new();
        match self {
            TableFilterCommand::All(Filter::Contains(FilterString::CaseInsensitive(s))) => {
                push_char(&mut out, '[');
                push_char(&mut out, 'a');
                push_char(&mut out, '-');
                push_char(&mut out, 'Z');
                push_char(&mut out, ']');
                push_char(&mut out, '*');
                out.append(s.as_str());
                push_char(&mut out, '*');
                assert(out@ =~= seq!['[', 'a', '-', 'Z', ']', '*'] + s@ + seq!['*']);
            },
            _ => {},
        }
        out
    }
}

impl Filter {
    pub fn as_readable(&self) -> (r: String)
        ensures
            r@ == readable_filter(*self),
    {
        let mut out = String::new();
        let inner = match self {
            Filter::Contains(f) => {
                push_char(&mut out, '~');
                f
            },
            Filter::NotContains(f) => {
                push_char(&mut out, '!');
                push_char(&mut out, '=');
                f
            },
            Filter::Equal(f) => {
                push_char(&mut out, '=');
                f
            },
        };
        let rest = inner.as_readable();
        out.append(rest.as_str());
        assert(out@ =~= readable_filter(*self));
        out
    }
}

/// Whether a filter string matches a text: it occurs in the text, after
/// ASCII lower-casing both when the filter ignores case.
pub open spec fn filter_matches(f: FilterString, text: Seq<char>) -> bool {
    match f {
        FilterString::CaseSensitive(s) => occurs_in(text, s@),
        FilterString::CaseInsensitive(s) => occurs_in(ascii_lower_seq(text), ascii_lower_seq(s@)),
    }
}

impl FilterString {
    pub fn as_readable(&self) -> (r: String)
        ensures
            r@ == readable_filter_string(*self),
    {
        let mut out = String::new();
        let s = match self {
            FilterString::CaseSensitive(s) => {
                push_char(&mut out, 'A');
                s
            },
            FilterString::CaseInsensitive(s) => {
                push_char(&mut out, 'a');
                s
            },
        };
        push_char(&mut out, ':');
        out.append(s.as_str());
        assert(out@ =~= readable_filter_string(*self));
        out
    }

    pub fn is_in(&self, test_str: &str) -> (r: bool)
        ensures
            r == filter_matches(*self, test_str@),
    {
        match self {
            FilterString::CaseSensitive(s) => str_contains(test_str, s.as_str()),
            FilterString::CaseInsensitive(s) => {
                let hay = ascii_lowercase_chars(test_str);
                let needle = ascii_lowercase_chars(s.as_str());
                seq_contains(&hay, &needle)
            },
        }
    }
}

proof fn lemma_lower_idempotent(t: Seq<char>)
    ensures
        ascii_lower_seq(ascii_lower_seq(t)) == ascii_lower_seq(t),
{
    assert forall|i: int| 0 <= i < t.len() implies #[trigger] ascii_lower(ascii_lower(t[i])) == ascii_lower(t[i]) by {
        let c = t[i];
        if 'A' <= c && c <= 'Z' {
            assert(65 <= (c as u32) <= 90);
            assert(97 <= (ascii_lower(c) as u32) <= 122);
        }
    }
    assert(ascii_lower_seq(ascii_lower_seq(t)) =~= ascii_lower_seq(t));
}

/// A filter that ignores case matches a text as it matches the text
/// lower-cased: the ASCII case of the text does not matter.
pub proof fn law_ignoring_case_ignores_text_case(s: String, text: Seq<char>)
    ensures
        filter_matches(FilterString::CaseInsensitive(s), text)
            == filter_matches(FilterString::CaseInsensitive(s), ascii_lower_seq(text)),
{
    lemma_lower_idempotent(text);
}

/// What a filter that heeds case matches, the same filter ignoring case
/// matches too.
pub proof fn law_case_sensitive_match_ignoring_case(s: String, text: Seq<char>)
    requires
        filter_matches(FilterString::CaseSensitive(s), text),
    ensures
        filter_matches(FilterString::CaseInsensitive(s), text),
{
    let i = choose|i: int| 0 <= i && i + s@.len() <= text.len() && #[trigger] text.subrange(i, i + s@.len()) == s@;
    let lt = ascii_lower_seq(text);
    let ls = ascii_lower_seq(s@);
    assert(lt.subrange(i, i + ls.len()) =~= ls);
}

/// A column width: a fixed length, or a share of the room the fixed
/// columns leave.
#[derive(Clone, Copy, Debug, PartialEq, Eq, Structural)]
pub enum BasicConstraint {
    Length(u16),
    Percentage(Percentage),
}

/// The room a constraint takes before shares are handed out, margin included.
pub open spec fn fixed_room(c: BasicConstraint, margin: u16) -> int {
    match c {
        BasicConstraint::Length(l) => l + margin,
        BasicConstraint::Percentage(_) => margin as int,
    }
}

/// The room the constraints take before shares are handed out.
pub open spec fn fixed_total(cs: Seq<BasicConstraint>, margin: u16) -> int
    decreases cs.len(),
{
    if cs.len() == 0 {
        0
    } else {
        fixed_total(cs.drop_last(), margin) + fixed_room(cs.last(), margin)
    }
}

/// The room left for shares: `length` less the fixed room, never below zero.
pub open spec fn share_room(cs: Seq<BasicConstraint>, length: u16, margin: u16) -> int {
    if fixed_total(cs, margin) < length { length - fixed_total(cs, margin) } else { 0 }
}

/// The width given to one constraint.
pub open spec fn width_of(c: BasicConstraint, room: int) -> int {
    match c {
        BasicConstraint::Length(l) => l as int,
        BasicConstraint::Percentage(p) => (p.0 * room) / 100,
    }
}

/// Every share fits the 16-bit arithmetic of its computation.
pub open spec fn shares_fit(cs: Seq<BasicConstraint>, room: int) -> bool {
    forall|i: int| 0 <= i < cs.len() ==> match #[trigger] cs[i] {
        BasicConstraint::Length(_) => true,
        BasicConstraint::Percentage(p) => p.0 * room <= u16::MAX,
    }
}

proof fn lemma_fixed_total_monotone(cs: Seq<BasicConstraint>, margin: u16, i: int)
    requires
        0 <= i <= cs.len(),
    ensures
        0 <= fixed_total(cs.subrange(0, i), margin) <= fixed_total(cs, margin),
    decreases cs.len(),
{
    if i < cs.len() {
        assert(cs.drop_last() =~= cs.subrange(0, cs.len() - 1));
        lemma_fixed_total_monotone(cs.drop_last(), margin, i);
        assert(cs.drop_last().subrange(0, i) =~= cs.subrange(0, i));
    } else {
        assert(cs.subrange(0, i) =~= cs);
        lemma_fixed_total_nonneg(cs, margin);
    }
}

proof fn lemma_fixed_total_nonneg(cs: Seq<BasicConstraint>, margin: u16)
    ensures
        fixed_total(cs, margin) >= 0,
    decreases cs.len(),
{
    if cs.len() > 0 {
        lemma_fixed_total_nonneg(cs.drop_last(), margin);
    }
}

/// The sum of the percentages of the constraints.
pub open spec fn percent_total(cs: Seq<BasicConstraint>) -> int
    decreases cs.len(),
{
    if cs.len() == 0 {
        0
    } else {
        percent_total(cs.drop_last()) + match cs.last() {
            BasicConstraint::Percentage(p) => p.0 as int,
            BasicConstraint::Length(_) => 0,
        }
    }
}

/// The sum of the fixed lengths of the constraints.
pub open spec fn length_total(cs: Seq<BasicConstraint>) -> int
    decreases cs.len(),
{
    if cs.len() == 0 {
        0
    } else {
        length_total(cs.drop_last()) + match cs.last() {
            BasicConstraint::Length(l) => l as int,
            BasicConstraint::Percentage(_) => 0,
        }
    }
}

/// The sum of the widths the constraints get when `room` is shared.
pub open spec fn widths_total(cs: Seq<BasicConstraint>, room: int) -> int
    decreases cs.len(),
{
    if cs.len() == 0 {
        0
    } else {
        widths_total(cs.drop_last(), room) + width_of(cs.last(), room)
    }
}

proof fn lemma_widths_bound(cs: Seq<BasicConstraint>, room: int, margin: u16)
    requires
        room >= 0,
    ensures
        widths_total(cs, room) * 100 <= length_total(cs) * 100 + percent_total(cs) * room,
        fixed_total(cs, margin) == length_total(cs) + cs.len() * margin,
        percent_total(cs) >= 0,
    decreases cs.len(),
{
    if cs.len() > 0 {
        let rest = cs.drop_last();
        lemma_widths_bound(rest, room, margin);
        let n = rest.len() as int;
        assert(n * margin + margin == (n + 1) * margin) by (nonlinear_arith);
        match cs.last() {
            BasicConstraint::Length(l) => {},
            BasicConstraint::Percentage(p) => {
                let pv = p.0 as int;
                assert(((pv * room) / 100) * 100 <= pv * room) by (nonlinear_arith)
                    requires
                        pv >= 0,
                        room >= 0,
                ;
                assert((percent_total(rest) + pv) * room == percent_total(rest) * room + pv * room)
                    by (nonlinear_arith);
            },
        }
    }
}

/// When the percentages add up to at most a hundred and the fixed
/// columns with their margins fit in the table, every column with its
/// margin fits: the shares never take more than the room left.
pub proof fn law_columns_fit(cs: Seq<BasicConstraint>, length: u16, margin: u16)
    requires
        percent_total(cs) <= 100,
        fixed_total(cs, margin) <= length,
    ensures
        widths_total(cs, share_room(cs, length, margin)) + cs.len() * margin <= length,
{
    let room = share_room(cs, length, margin);
    lemma_widths_bound(cs, room, margin);
    assert(percent_total(cs) * room <= 100 * room) by (nonlinear_arith)
        requires
            percent_total(cs) <= 100,
            room >= 0,
    ;
    assert(room == length - fixed_total(cs, margin));
}

/// Column widths of a table of width `length`: fixed lengths as given,
/// each percentage a share of what the fixed columns and the margins leave.
pub fn basic_constraints_to_table_constraints(
    basic_constraints: &[BasicConstraint],
    length: u16,
    margin: u16,
) -> (r: Vec<u16>)
    requires
        fixed_total(basic_constraints@, margin) <= u16::MAX,
        shares_fit(basic_constraints@, share_room(basic_constraints@, length, margin)),
    ensures
        r@.len() == basic_constraints@.len(),
        forall|i: int| 0 <= i < r@.len() ==> #[trigger] r@[i] == width_of(
            basic_constraints@[i],
            share_room(basic_constraints@, length, margin),
        ),
{
    let n = basic_constraints.len();
    let mut sum_lengths: u16 = 0;
    let mut i: usize = 0;
    while i < n
        invariant
            n == basic_constraints@.len(),
            i <= n,
            sum_lengths == fixed_total(basic_constraints@.subrange(0, i as int), margin),
            fixed_total(basic_constraints@, margin) <= u16::MAX,
        decreases n - i,
    {
        proof {
            lemma_fixed_total_monotone(basic_constraints@, margin, i + 1);
            assert(basic_constraints@.subrange(0, i + 1).drop_last() =~= basic_constraints@.subrange(0, i as int));
        }
        let step: u16 = match basic_constraints[i] {
            BasicConstraint::Length(l) => l,
            BasicConstraint::Percentage(_) => 0,
        };
        sum_lengths = sum_lengths + step + margin;
        i = i + 1;
    }
    assert(basic_constraints@.subrange(0, n as int) =~= basic_constraints@);
    let room: u16 = if sum_lengths < length { length - sum_lengths } else { 0 };
    let mut out: Vec<u16> = Vec::new();
    let mut j: usize = 0;
    while j < n
        invariant
            n == basic_constraints@.len(),
            j <= n,
            room == share_room(basic_constraints@, length, margin),
            shares_fit(basic_constraints@, room as int),
            out@.len() == j,
            forall|k: int| 0 <= k < j ==> #[trigger] out@[k] == width_of(basic_constraints@[k], room as int),
        decreases n - j,
    {
        let w: u16 = match basic_constraints[j] {
            BasicConstraint::Length(l) => l,
            BasicConstraint::Percentage(p) => {
                assert(p.0 * room <= u16::MAX) by {
                    assert(basic_constraints@[j as int] == BasicConstraint::Percentage(p));
                }
                (p.0 as u16) * room / 100
            },
        };
        out.push(w);
        j = j + 1;
    }
    out
}

/// A part that can be scrolled; an item is always selected.
pub trait Scrollable {
    /// Moves the selection by `amount` rows.
    fn increment_list(&mut self, amount: isize);

    /// The selected row.
    fn get_selected_item(&self) -> usize;
}

/// A part that either scrolls itself or hands scrolling on to a component.
pub trait MaybeScrollable {
    /// Tries to move the selection by `amount`; true when it was handled.
    fn increment_list(&mut self, amount: isize) -> bool;

    /// True when a scrollable component of the part is active.
    fn scrollable_component_active(&self) -> bool;
}

/// A part that can be in a loading state.
pub trait Loadable {
    fn is_loading(&self) -> bool;
}

/// A part drawn as a table from its data.
pub trait TableView: Scrollable + Loadable {
    fn get_title(&self) -> String;

    /// The rows of the table, as contracts speak of them.
    spec fn rows(&self) -> Seq<Vec<String>>;

    fn get_layout(&self) -> &[BasicConstraint];
    /// The rows, each a list of cell texts.
    fn get_items(&self) -> (r: Vec<Vec<String>>)
        ensures
            r@ == self.rows(),
    ;
    fn get_headings(&self) -> Vec<String>;

    /// The number of rows.
    fn len(&self) -> (r: usize)
        ensures
            r == self.rows().len(),
    {
        self.get_items().len()
    }
}

/// Why a sort command was refused.
#[derive(Clone, Copy, Debug, PartialEq, Eq, Structural)]
pub enum SortError {
    /// The column of the command is not one of the sortable columns.
    ColumnNotSortable,
}

/// A table that can be sorted and filtered by its columns.
pub trait SortableTableView: TableView {
    fn get_sortable_columns(&self) -> &[usize];

    fn get_sort_commands(&self) -> &[TableSortCommand];

    /// Fails when the column of the command is not sortable.
    fn push_sort_command(&mut self, sort_command: TableSortCommand) -> Result<(), SortError>;

    fn clear_sort_commands(&mut self);

    fn get_filterable_columns(&self) -> &[usize];

    /// The rows that pass every filter command.
    fn get_filtered_items(&self) -> Vec<Vec<String>>;

    fn get_filter_commands(&self) -> &[TableFilterCommand];

    fn push_filter_command(&mut self, filter_command: TableFilterCommand);

    fn clear_filter_commands(&mut self);
}

/// A part drawn as a list from its data.
pub trait ListView: Scrollable + SortableList + Loadable {
    fn get_title(&self) -> String;

    /// The items of the list, as contracts speak of them.
    spec fn items(&self) -> Seq<String>;
    /// The displayed text of each item.
    fn get_items_display(&self) -> (r: Vec<String>)
        ensures
            r@ == self.items(),
    ;
    /// The number of items.
    fn len(&self) -> (r: usize)
        ensures
            r == self.items().len(),
    {
        self.get_items_display().len()
    }
}

pub trait SortableList {
    fn push_sort_command(&mut self, list_sort_command: String);

    fn clear_sort_commands(&mut self);
}

pub trait FilterableList {
    fn push_filter_command(&mut self, list_filter_command: String);

    fn clear_filter_commands(&mut self);
}

}
