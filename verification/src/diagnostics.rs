//! Compiler diagnostics and their canonical ordering.
use vstd::prelude::*;
use vstd::seq_lib::*;
use vstd::multiset::Multiset;

verus! {

/// A compiler diagnostic: a kind, a message, and where it points.
#[derive(Debug)]
pub struct Diagnostic {
    pub kind: String,
    pub message: String,
    pub code: Option<String>,
    pub help: Option<String>,
    pub path: Option<String>,
    pub line: Option<usize>,
    pub column: Option<usize>,
    pub related: Vec<Diagnostic>,
}

impl Diagnostic {
    /// A diagnostic of `kind` with `message` and no location.
    pub fn new(kind: &str, message: String) -> (d: Diagnostic)
        ensures
            d.kind@ == kind@,
            d.message@ == message@,
            d.code is None,
            d.help is None,
            d.path is None,
            d.line is None,
            d.column is None,
            d.related@.len() == 0,
    {
        Diagnostic {
            kind: String::from_str(kind),
            message,
            code: None,
            help: None,
            path: None,
            line: None,
            column: None,
            related: Vec::new(),
        }
    }

    /// The same diagnostic, located at `line`, `column`.
    pub fn with_span(self, line: usize, column: usize) -> (d: Diagnostic)
        ensures
            d == (Diagnostic { line: Some(line), column: Some(column), ..self }),
    {
        Diagnostic { line: Some(line), column: Some(column), ..self }
    }

    /// The same diagnostic, carrying the stable code `code`.
    pub fn with_code(self, code: &str) -> (d: Diagnostic)
        ensures
            d.code is Some && d.code->0@ == code@,
            d.kind == self.kind && d.message == self.message && d.help == self.help,
            d.path == self.path && d.line == self.line && d.column == self.column,
            d.related == self.related,
    {
        Diagnostic { code: Some(String::from_str(code)), ..self }
    }

    /// The same diagnostic, carrying the hint `help`.
    pub fn with_help(self, help: &str) -> (d: Diagnostic)
        ensures
            d.help is Some && d.help->0@ == help@,
            d.kind == self.kind && d.message == self.message && d.code == self.code,
            d.path == self.path && d.line == self.line && d.column == self.column,
            d.related == self.related,
    {
        Diagnostic { help: Some(String::from_str(help)), ..self }
    }
}

/// The text of an optional string.
pub open spec fn opt_text(s: Option<String>) -> Option<Seq<char>> {
    match s {
        Some(v) => Some(v@),
        None => None,
    }
}

/// `d` has exactly these fields, no path and no related diagnostics.
pub open spec fn diag_fields(d: Diagnostic, kind: Seq<char>, message: Seq<char>, code: Option<Seq<char>>, help: Option<Seq<char>>, line: Option<usize>, column: Option<usize>) -> bool {
    &&& d.kind@ == kind
    &&& d.message@ == message
    &&& opt_text(d.code) == code
    &&& opt_text(d.help) == help
    &&& d.path is None
    &&& d.line == line
    &&& d.column == column
    &&& d.related@.len() == 0
}

/// Three-way lexicographic comparison of character sequences (-1, 0 or 1).
pub open spec fn seq_order(a: Seq<char>, b: Seq<char>) -> int
    decreases a.len(),
{
    if a.len() == 0 {
        if b.len() == 0 { 0 } else { -1 }
    } else if b.len() == 0 {
        1
    } else if a[0] < b[0] {
        -1
    } else if a[0] > b[0] {
        1
    } else {
        seq_order(a.drop_first(), b.drop_first())
    }
}

/// Comparison of optional strings: absent sorts first.
pub open spec fn opt_str_order(a: Option<String>, b: Option<String>) -> int {
    match (a, b) {
        (None, None) => 0,
        (None, Some(_)) => -1,
        (Some(_), None) => 1,
        (Some(x), Some(y)) => seq_order(x@, y@),
    }
}

/// Comparison of optional numbers: absent sorts first.
pub open spec fn opt_num_order(a: Option<usize>, b: Option<usize>) -> int {
    match (a, b) {
        (None, None) => 0,
        (None, Some(_)) => -1,
        (Some(_), None) => 1,
        (Some(x), Some(y)) => if x < y { -1 } else if x > y { 1 } else { 0 },
    }
}

/// The canonical diagnostic order: by path, line, column, kind, then message.
pub open spec fn diag_order(a: Diagnostic, b: Diagnostic) -> int {
    let c1 = opt_str_order(a.path, b.path);
    let c2 = opt_num_order(a.line, b.line);
    let c3 = opt_num_order(a.column, b.column);
    let c4 = seq_order(a.kind@, b.kind@);
    let c5 = seq_order(a.message@, b.message@);
    if c1 != 0 { c1 } else if c2 != 0 { c2 } else if c3 != 0 { c3 } else if c4 != 0 { c4 } else { c5 }
}

/// `a` does not sort after `b`.
pub open spec fn diag_le(a: Diagnostic, b: Diagnostic) -> bool {
    diag_order(a, b) <= 0
}

/// A list in canonical diagnostic order.
pub open spec fn diags_sorted(s: Seq<Diagnostic>) -> bool {
    forall|i: int, j: int| 0 <= i < j < s.len() ==> diag_le(#[trigger] s[i], #[trigger] s[j])
}

pub proof fn lemma_seq_order_props(a: Seq<char>, b: Seq<char>, c: Seq<char>)
    ensures
        seq_order(a, b) == -seq_order(b, a),
        -1 <= seq_order(a, b) <= 1,
        seq_order(a, b) <= 0 && seq_order(b, c) <= 0 ==> seq_order(a, c) <= 0,
        seq_order(a, b) < 0 && seq_order(b, c) <= 0 ==> seq_order(a, c) < 0,
        seq_order(a, b) <= 0 && seq_order(b, c) < 0 ==> seq_order(a, c) < 0,
    decreases a.len(),
{
    if a.len() > 0 && b.len() > 0 && c.len() > 0 {
        lemma_seq_order_props(a.drop_first(), b.drop_first(), c.drop_first());
    } else if a.len() > 0 && b.len() > 0 {
        lemma_seq_order_props(a.drop_first(), b.drop_first(), b.drop_first());
    }
}

/// Strings that compare equal are equal.
pub proof fn lemma_seq_order_zero(a: Seq<char>, b: Seq<char>)
    ensures
        seq_order(a, b) == 0 ==> a == b,
    decreases a.len(),
{
    if a.len() > 0 && b.len() > 0 && a[0] == b[0] {
        lemma_seq_order_zero(a.drop_first(), b.drop_first());
        if seq_order(a, b) == 0 {
            assert(a =~= seq![a[0]] + a.drop_first());
            assert(b =~= seq![b[0]] + b.drop_first());
        }
    }
    if a.len() == 0 && b.len() == 0 {
        assert(a =~= b);
    }
}

proof fn lemma_diag_order_props(a: Diagnostic, b: Diagnostic, c: Diagnostic)
    ensures
        diag_order(a, b) == -diag_order(b, a),
        diag_le(a, b) || diag_le(b, a),
        diag_le(a, b) && diag_le(b, c) ==> diag_le(a, c),
        diag_order(a, b) < 0 && diag_le(b, c) ==> diag_order(a, c) < 0,
        diag_le(a, b) && diag_order(b, c) < 0 ==> diag_order(a, c) < 0,
{
    match (a.path, b.path, c.path) {
        (Some(x), Some(y), Some(z)) => lemma_seq_order_props(x@, y@, z@),
        (Some(x), Some(y), None) => lemma_seq_order_props(x@, y@, y@),
        (None, Some(y), Some(z)) => lemma_seq_order_props(y@, z@, z@),
        (Some(x), None, Some(z)) => lemma_seq_order_props(x@, z@, z@),
        _ => {},
    }
    lemma_seq_order_props(a.kind@, b.kind@, c.kind@);
    lemma_seq_order_props(a.message@, b.message@, c.message@);
}

/// Three-way lexicographic comparison of two strings.
pub fn str_compare(a: &str, b: &str) -> (r: i8)
    ensures
        r as int == seq_order(a@, b@),
{
    let n = a.unicode_len();
    let m = b.unicode_len();
    let mut i: usize = 0;
    proof {
        assert(a@.skip(0) =~= a@);
        assert(b@.skip(0) =~= b@);
    }
    while i < n && i < m
        invariant
            n == a@.len(),
            m == b@.len(),
            i <= n,
            i <= m,
            seq_order(a@, b@) == seq_order(a@.skip(i as int), b@.skip(i as int)),
        decreases n - i,
    {
        let x = a.get_char(i);
        let y = b.get_char(i);
        proof {
            assert(a@.skip(i as int)[0] == x);
            assert(b@.skip(i as int)[0] == y);
            assert(a@.skip(i as int).drop_first() =~= a@.skip(i + 1));
            assert(b@.skip(i as int).drop_first() =~= b@.skip(i + 1));
        }
        if x < y {
            return -1;
        }
        if x > y {
            return 1;
        }
        i = i + 1;
    }
    if i == n && i == m {
        0
    } else if i == n {
        -1
    } else {
        1
    }
}

fn opt_str_compare(a: &Option<String>, b: &Option<String>) -> (r: i8)
    ensures
        r as int == opt_str_order(*a, *b),
{
    match (a, b) {
        (None, None) => 0,
        (None, Some(_)) => -1,
        (Some(_), None) => 1,
        (Some(x), Some(y)) => str_compare(x.as_str(), y.as_str()),
    }
}

fn opt_num_compare(a: Option<usize>, b: Option<usize>) -> (r: i8)
    ensures
        r as int == opt_num_order(a, b),
{
    match (a, b) {
        (None, None) => 0,
        (None, Some(_)) => -1,
        (Some(_), None) => 1,
        (Some(x), Some(y)) => if x < y { -1 } else if x > y { 1 } else { 0 },
    }
}

/// Compares two diagnostics in the canonical order.
pub fn diagnostic_compare(a: &Diagnostic, b: &Diagnostic) -> (r: i8)
    ensures
        r as int == diag_order(*a, *b),
{
    let c1 = opt_str_compare(&a.path, &b.path);
    if c1 != 0 {
        return c1;
    }
    let c2 = opt_num_compare(a.line, b.line);
    if c2 != 0 {
        return c2;
    }
    let c3 = opt_num_compare(a.column, b.column);
    if c3 != 0 {
        return c3;
    }
    let c4 = str_compare(a.kind.as_str(), b.kind.as_str());
    if c4 != 0 {
        return c4;
    }
    str_compare(a.message.as_str(), b.message.as_str())
}

/// `s` with `x` inserted after every element that does not sort after it.
pub open spec fn insert_stable(s: Seq<Diagnostic>, x: Diagnostic) -> Seq<Diagnostic>
    decreases s.len(),
{
    if s.len() > 0 && diag_order(x, s.last()) < 0 {
        insert_stable(s.drop_last(), x).push(s.last())
    } else {
        s.push(x)
    }
}

/// `s` sorted into canonical order, diagnostics that sort equal keeping their order in `s`.
pub open spec fn stable_sort(s: Seq<Diagnostic>) -> Seq<Diagnostic>
    decreases s.len(),
{
    if s.len() == 0 {
        s
    } else {
        insert_stable(stable_sort(s.drop_last()), s.last())
    }
}

/// Inserting at `k`, after the elements that do not sort after `x` and before those that
/// do, is `insert_stable`.
proof fn lemma_insert_stable(s: Seq<Diagnostic>, x: Diagnostic, k: int)
    requires
        0 <= k <= s.len(),
        forall|j: int| k <= j < s.len() ==> diag_order(x, #[trigger] s[j]) < 0,
        k == 0 || !(diag_order(x, s[k - 1]) < 0),
    ensures
        insert_stable(s, x) == s.insert(k, x),
    decreases s.len(),
{
    if s.len() > k {
        assert(diag_order(x, s[s.len() - 1]) < 0);
        lemma_insert_stable(s.drop_last(), x, k);
        assert(s.drop_last().insert(k, x).push(s.last()) =~= s.insert(k, x));
    } else {
        assert(s.push(x) =~= s.insert(k, x));
    }
}

/// Sorts diagnostics stably into the canonical order.
pub fn sort_diagnostics(diagnostics: &mut Vec<Diagnostic>)
    ensures
        diags_sorted(final(diagnostics)@),
        final(diagnostics)@.to_multiset() == old(diagnostics)@.to_multiset(),
        final(diagnostics)@ == stable_sort(old(diagnostics)@),
{
    broadcast use group_to_multiset_ensures;
    let ghost given = diagnostics@;
    let ghost mut n: int = 0;
    let mut sorted: Vec<Diagnostic> = Vec::new();
    proof { assert(given.take(0) =~= Seq::<Diagnostic>::empty()); assert(given.subrange(0, given.len() as int) =~= given); }
    while diagnostics.len() > 0
        invariant
            diags_sorted(sorted@),
            sorted@.to_multiset().add(diagnostics@.to_multiset()) == given.to_multiset(),
            0 <= n <= given.len(),
            diagnostics@ == given.subrange(n, given.len() as int),
            sorted@ == stable_sort(given.take(n)),
        decreases diagnostics.len(),
    {
        let ghost before = diagnostics@;
        let next = diagnostics.remove(0);
        proof {
            assert(next == given[n]);
            assert(given.take(n + 1).drop_last() =~= given.take(n));
            assert(given.take(n + 1).last() == next);
        }
        proof {
            assert(before.remove(0) =~= diagnostics@);
            to_multiset_remove(before, 0);
            to_multiset_contains(before, next);
            assert(before.contains(next)) by { assert(before[0] == next); }
        }
        // Insert after every element that does not sort after `next`.
        let mut k: usize = sorted.len();
        while k > 0 && diagnostic_compare(&next, &sorted[k - 1]) < 0
            invariant
                k <= sorted.len(),
                diags_sorted(sorted@),
                forall|j: int| k <= j < sorted.len() ==> diag_order(next, #[trigger] sorted@[j]) < 0,
            decreases k,
        {
            k = k - 1;
        }
        let ghost s_before = sorted@;
        proof {
            if k > 0 {
                lemma_diag_order_props(next, s_before[k - 1], next);
                assert forall|j: int| 0 <= j < k implies diag_le(#[trigger] s_before[j], next) by {
                    lemma_diag_order_props(s_before[j], s_before[k - 1], next);
                }
            }
        }
        sorted.insert(k, next);
        proof {
            lemma_insert_stable(s_before, next, k as int);
            assert(sorted@ == stable_sort(given.take(n + 1)));
            assert(diagnostics@ =~= given.subrange(n + 1, given.len() as int));
            n = n + 1;
            to_multiset_insert(s_before, k as int, next);
            assert forall|i: int, j: int| 0 <= i < j < sorted@.len() implies diag_le(#[trigger] sorted@[i], #[trigger] sorted@[j]) by {
                if j < k {
                } else if i < k && j == k {
                } else if i < k && j > k {
                    lemma_diag_order_props(s_before[i], next, s_before[j - 1]);
                } else if i == k {
                    lemma_diag_order_props(next, s_before[j - 1], next);
                } else {
                }
            }
            broadcast use vstd::multiset::group_multiset_axioms;
            assert(sorted@.to_multiset().add(diagnostics@.to_multiset()) =~= given.to_multiset());
        }
    }
    proof {
        assert(given.take(n) =~= given);
        assert(diagnostics@.to_multiset() =~= Multiset::empty());
        assert(sorted@.to_multiset() =~= given.to_multiset());
    }
    *diagnostics = sorted;
}

/// `d` is the first of `diagnostics` in canonical order, carrying all the others, in
/// order, as related; diagnostics that sort equal keep the order they came in.
pub open spec fn is_primary(d: Diagnostic, diagnostics: Seq<Diagnostic>) -> bool {
    &&& d.related@ == stable_sort(diagnostics).drop_first()
    &&& d == (Diagnostic { related: d.related, ..stable_sort(diagnostics)[0] })
    &&& forall|i: int| 0 <= i < d.related.len() ==> diag_le(d, #[trigger] d.related[i])
    &&& diags_sorted(d.related@)
    &&& exists|f: Diagnostic| #[trigger] diagnostics.to_multiset().count(f) > 0
        && d == (Diagnostic { related: d.related, ..f })
        && d.related@.to_multiset().insert(f) == diagnostics.to_multiset()
}

/// The first diagnostic in canonical order, carrying all the others as related.
pub fn primary_diagnostic(diagnostics: Vec<Diagnostic>) -> (d: Diagnostic)
    requires
        diagnostics.len() > 0,
    ensures
        is_primary(d, diagnostics@),
{
    broadcast use group_to_multiset_ensures;
    let mut diagnostics = diagnostics;
    let ghost given = diagnostics@;
    sort_diagnostics(&mut diagnostics);
    let ghost sorted = diagnostics@;
    proof {
        to_multiset_len(given);
        to_multiset_len(sorted);
    }
    let first = diagnostics.remove(0);
    proof {
        assert(sorted.remove(0) =~= diagnostics@);
        assert(sorted.drop_first() =~= diagnostics@);
        to_multiset_remove(sorted, 0);
        assert forall|i: int, j: int| 0 <= i < j < diagnostics@.len() implies diag_le(#[trigger] diagnostics@[i], #[trigger] diagnostics@[j]) by {
            assert(diagnostics@[i] == sorted[i + 1]);
            assert(diagnostics@[j] == sorted[j + 1]);
        }
    }
    let result = Diagnostic { related: diagnostics, ..first };
    proof {
        assert forall|i: int| 0 <= i < result.related.len() implies diag_le(result, #[trigger] result.related[i]) by {
            assert(result.related[i] == sorted[i + 1]);
        }
        assert(result == (Diagnostic { related: result.related, ..first }));
        assert(sorted.contains(first)) by { assert(sorted[0] == first); }
        assert(given.to_multiset().count(first) > 0);
        assert(result.related@.to_multiset().insert(first) == given.to_multiset());
        assert(is_primary(result, given));
    }
    result
}

/// A single diagnostic as a list.
pub fn single_diagnostic(diagnostic: Diagnostic) -> (r: Vec<Diagnostic>)
    ensures
        r@ == seq![diagnostic],
{
    let mut v = Vec::new();
    v.push(diagnostic);
    v
}

/// Appends a diagnostic and its related diagnostics to `diagnostics`: the related ones first.
pub fn append_diagnostic(diagnostics: &mut Vec<Diagnostic>, diagnostic: Diagnostic)
    ensures
        final(diagnostics)@.len() == old(diagnostics)@.len() + diagnostic.related@.len() + 1,
        final(diagnostics)@.drop_last() == old(diagnostics)@ + diagnostic.related@,
        final(diagnostics)@.last().related@.len() == 0,
        final(diagnostics)@.last() == (Diagnostic { related: final(diagnostics)@.last().related, ..diagnostic }),
{
    let mut diagnostic = diagnostic;
    let ghost related = diagnostic.related@;
    let mut taken: Vec<Diagnostic> = Vec::new();
    std::mem::swap(&mut taken, &mut diagnostic.related);
    diagnostics.append(&mut taken);
    diagnostics.push(diagnostic);
    proof {
        assert(diagnostics@.drop_last() =~= old(diagnostics)@ + related);
    }
}

} // verus!
