//! What one line yields: the rules are tried in order, and the matches of
//! each rule in the order the expression finds them.
//!
//! A line that the filter expression (when set) does not match yields
//! nothing. Without `clean`, every match reports the whole line, provided
//! the line also escapes the drop expression. With `clean`, every match
//! reports the text of its first capture group, provided that text passes
//! the drop and filter expressions and was not reported before on this line.
//! Without `thorough` the scan stops at the first report.

use vstd::prelude::*;
use crate::pattern::{regex_is_match, regex_first_groups};

verus! {

/// The settings that decide what a line yields.
pub struct ScanOptions {
    /// Report only the matched text, not the whole line.
    pub clean: bool,
    /// Do not stop at the first report.
    pub thorough: bool,
    /// Leave out text that this expression matches (unset when empty).
    pub drop: Seq<char>,
    /// Keep only text that this expression matches (unset when empty).
    pub filter: Seq<char>,
}

/// Whether the filter expression admits `text`: it is unset, or it matches.
pub open spec fn passes_filter(o: ScanOptions, text: Seq<char>) -> bool {
    o.filter.len() == 0 || regex_is_match(o.filter, text)
}

/// Whether `text` may be reported: the drop expression, when set, does not
/// match it, and the filter expression admits it.
pub open spec fn worthy(o: ScanOptions, text: Seq<char>) -> bool {
    &&& !(o.drop.len() > 0 && regex_is_match(o.drop, text))
    &&& passes_filter(o, text)
}

/// Whether `line` is looked at all: with `clean`, the filter expression must
/// admit it; without, the whole line is what gets reported, so it must be
/// worthy.
pub open spec fn line_admitted(o: ScanOptions, line: Seq<char>) -> bool {
    if o.clean {
        passes_filter(o, line)
    } else {
        worthy(o, line)
    }
}

/// The progress of the scan of one line.
pub struct ScanState {
    /// The reports so far: a content type and the reported text.
    pub found: Seq<(Seq<char>, Seq<char>)>,
    /// The texts reported so far (with `clean`).
    pub seen: Set<Seq<char>>,
    /// Whether the scan has stopped.
    pub stopped: bool,
}

/// The state before the first match.
pub open spec fn fresh_scan() -> ScanState {
    ScanState { found: seq![], seen: Set::empty(), stopped: false }
}

/// One match of a rule for content type `kind`, found on `line`, with the
/// text `group` of its first capture group (`None` when the group took no
/// part in the match).
pub open spec fn scan_step(
    o: ScanOptions,
    line: Seq<char>,
    st: ScanState,
    kind: Seq<char>,
    group: Option<Seq<char>>,
) -> ScanState {
    if st.stopped || !line_admitted(o, line) {
        st
    } else if !o.clean {
        ScanState { found: st.found.push((kind, line)), seen: st.seen, stopped: !o.thorough }
    } else {
        match group {
            Some(t) => if worthy(o, t) && !st.seen.contains(t) {
                ScanState {
                    found: st.found.push((kind, t)),
                    seen: st.seen.insert(t),
                    stopped: !o.thorough,
                }
            } else {
                st
            },
            None => st,
        }
    }
}

/// The matches of a rule for `kind`, one after the other, each given by the
/// text of its first capture group.
pub open spec fn scan_matches(
    o: ScanOptions,
    line: Seq<char>,
    st: ScanState,
    kind: Seq<char>,
    ms: Seq<Option<Seq<char>>>,
) -> ScanState
    decreases ms.len(),
{
    if ms.len() == 0 {
        st
    } else {
        scan_matches(o, line, scan_step(o, line, st, kind, ms[0]), kind, ms.drop_first())
    }
}

/// The rules (content type, expression), one after the other.
pub open spec fn scan_rules(
    o: ScanOptions,
    line: Seq<char>,
    st: ScanState,
    rules: Seq<(Seq<char>, Seq<char>)>,
) -> ScanState
    decreases rules.len(),
{
    if rules.len() == 0 {
        st
    } else {
        let next = scan_matches(o, line, st, rules[0].0, regex_first_groups(rules[0].1, line));
        scan_rules(o, line, next, rules.drop_first())
    }
}

/// What `line` yields under `rules`: content type and reported text, in order.
pub open spec fn line_findings(
    o: ScanOptions,
    line: Seq<char>,
    rules: Seq<(Seq<char>, Seq<char>)>,
) -> Seq<(Seq<char>, Seq<char>)> {
    scan_rules(o, line, fresh_scan(), rules).found
}

/// One report: the content type of the rule and the reported text.
pub struct Finding {
    pub content_type: String,
    pub data: String,
}

impl View for Finding {
    type V = (Seq<char>, Seq<char>);

    open spec fn view(&self) -> (Seq<char>, Seq<char>) {
        (self.content_type@, self.data@)
    }
}

/// The views of a list of reports.
pub open spec fn findings_view(fs: Seq<Finding>) -> Seq<(Seq<char>, Seq<char>)> {
    fs.map_values(|f: Finding| f@)
}

/// A scan that has stopped, or whose line is not admitted, stays as it is.
pub proof fn lemma_inert_matches(
    o: ScanOptions,
    line: Seq<char>,
    st: ScanState,
    kind: Seq<char>,
    ms: Seq<Option<Seq<char>>>,
)
    requires
        st.stopped || !line_admitted(o, line),
    ensures
        scan_matches(o, line, st, kind, ms) == st,
    decreases ms.len(),
{
    if ms.len() > 0 {
        lemma_inert_matches(o, line, st, kind, ms.drop_first());
    }
}

/// A scan that has stopped, or whose line is not admitted, stays as it is.
pub proof fn lemma_inert_rules(
    o: ScanOptions,
    line: Seq<char>,
    st: ScanState,
    rules: Seq<(Seq<char>, Seq<char>)>,
)
    requires
        st.stopped || !line_admitted(o, line),
    ensures
        scan_rules(o, line, st, rules) == st,
    decreases rules.len(),
{
    if rules.len() > 0 {
        lemma_inert_matches(o, line, st, rules[0].0, regex_first_groups(rules[0].1, line));
        lemma_inert_rules(o, line, st, rules.drop_first());
    }
}

/// After the match at `ms[j]` of the rule at `rules[i]` stopped the scan in
/// state `st`, the whole line yields what `st` holds.
pub proof fn lemma_stop_ends_line(
    o: ScanOptions,
    line: Seq<char>,
    total: ScanState,
    entry: ScanState,
    before: ScanState,
    st: ScanState,
    kind: Seq<char>,
    ms: Seq<Option<Seq<char>>>,
    j: int,
    rest: Seq<(Seq<char>, Seq<char>)>,
)
    requires
        0 <= j < ms.len(),
        st.stopped,
        st == scan_step(o, line, before, kind, ms[j]),
        scan_matches(o, line, before, kind, ms.skip(j)) == scan_matches(o, line, entry, kind, ms),
        scan_rules(o, line, scan_matches(o, line, entry, kind, ms), rest) == total,
    ensures
        total == st,
{
    assert(ms.skip(j).drop_first() == ms.skip(j + 1));
    assert(ms.skip(j)[0] == ms[j]);
    lemma_inert_matches(o, line, st, kind, ms.skip(j + 1));
    lemma_inert_rules(o, line, st, rest);
}

/// No two reports carry the same text.
pub open spec fn texts_distinct(found: Seq<(Seq<char>, Seq<char>)>) -> bool {
    forall|i: int, j: int| 0 <= i < j < found.len() ==> found[i].1 != found[j].1
}

/// Every report of `found` comes from a rule of `rules` with its content
/// type that matches on `line`: with `clean` its text is the first capture
/// group of one of that rule's matches, without `clean` it is the line.
pub open spec fn from_rules(
    o: ScanOptions,
    line: Seq<char>,
    found: Seq<(Seq<char>, Seq<char>)>,
    rules: Seq<(Seq<char>, Seq<char>)>,
) -> bool {
    forall|i: int|
        0 <= i < found.len() ==> exists|k: int|
            0 <= k < rules.len() && (#[trigger] rules[k]).0 == (#[trigger] found[i]).0 && (if o.clean {
                regex_first_groups(rules[k].1, line).contains(Some(found[i].1))
            } else {
                found[i].1 == line && regex_first_groups(rules[k].1, line).len() > 0
            })
}

/// What holds of every state of a scan.
pub open spec fn scan_ok(o: ScanOptions, line: Seq<char>, st: ScanState) -> bool {
    &&& (!o.thorough ==> st.found.len() <= 1 && (st.found.len() == 1 ==> st.stopped))
    &&& forall|i: int| 0 <= i < st.found.len() ==> worthy(o, #[trigger] st.found[i].1)
    &&& (!o.clean ==> forall|i: int| 0 <= i < st.found.len() ==> #[trigger] st.found[i].1 == line)
    &&& (o.clean ==> texts_distinct(st.found))
    &&& (o.clean ==> forall|i: int|
        0 <= i < st.found.len() ==> st.seen.contains(#[trigger] st.found[i].1))
}

proof fn lemma_step_ok(
    o: ScanOptions,
    line: Seq<char>,
    st: ScanState,
    kind: Seq<char>,
    g: Option<Seq<char>>,
)
    requires
        scan_ok(o, line, st),
    ensures
        scan_ok(o, line, scan_step(o, line, st, kind, g)),
{
    let r = scan_step(o, line, st, kind, g);
    if r != st {
        assert forall|i: int| 0 <= i < st.found.len() implies r.found[i] == st.found[i] by {}
        if o.clean {
            assert forall|i: int, j: int| 0 <= i < j < r.found.len() implies r.found[i].1
                != r.found[j].1 by {
                if j == st.found.len() {
                    assert(st.seen.contains(st.found[i].1));
                }
            }
        }
    }
}

proof fn lemma_matches_ok(
    o: ScanOptions,
    line: Seq<char>,
    st: ScanState,
    kind: Seq<char>,
    ms: Seq<Option<Seq<char>>>,
)
    requires
        scan_ok(o, line, st),
    ensures
        scan_ok(o, line, scan_matches(o, line, st, kind, ms)),
    decreases ms.len(),
{
    if ms.len() > 0 {
        lemma_step_ok(o, line, st, kind, ms[0]);
        lemma_matches_ok(o, line, scan_step(o, line, st, kind, ms[0]), kind, ms.drop_first());
    }
}

proof fn lemma_rules_ok(
    o: ScanOptions,
    line: Seq<char>,
    st: ScanState,
    rules: Seq<(Seq<char>, Seq<char>)>,
)
    requires
        scan_ok(o, line, st),
    ensures
        scan_ok(o, line, scan_rules(o, line, st, rules)),
    decreases rules.len(),
{
    if rules.len() > 0 {
        let ms = regex_first_groups(rules[0].1, line);
        lemma_matches_ok(o, line, st, rules[0].0, ms);
        lemma_rules_ok(o, line, scan_matches(o, line, st, rules[0].0, ms), rules.drop_first());
    }
}

proof fn lemma_matches_origin(
    o: ScanOptions,
    line: Seq<char>,
    st: ScanState,
    rules: Seq<(Seq<char>, Seq<char>)>,
    k: int,
    j: int,
)
    requires
        0 <= k < rules.len(),
        0 <= j <= regex_first_groups(rules[k].1, line).len(),
        from_rules(o, line, st.found, rules),
    ensures
        from_rules(
            o,
            line,
            scan_matches(o, line, st, rules[k].0, regex_first_groups(rules[k].1, line).skip(j)).found,
            rules,
        ),
    decreases regex_first_groups(rules[k].1, line).len() - j,
{
    let all = regex_first_groups(rules[k].1, line);
    let ms = all.skip(j);
    let kind = rules[k].0;
    if ms.len() > 0 {
        let g = ms[0];
        assert(all[j] == g);
        assert(all.contains(g));
        let next = scan_step(o, line, st, kind, g);
        assert(from_rules(o, line, next.found, rules)) by {
            assert forall|i: int| 0 <= i < next.found.len() implies exists|q: int|
                0 <= q < rules.len() && (#[trigger] rules[q]).0 == (#[trigger] next.found[i]).0 && (
                if o.clean {
                    regex_first_groups(rules[q].1, line).contains(Some(next.found[i].1))
                } else {
                    next.found[i].1 == line && regex_first_groups(rules[q].1, line).len() > 0
                }) by {
                if i < st.found.len() {
                    assert(next.found[i] == st.found[i]);
                } else {
                    assert(rules[k].0 == next.found[i].0);
                }
            }
        }
        assert(ms.drop_first() == all.skip(j + 1));
        lemma_matches_origin(o, line, next, rules, k, j + 1);
    }
}

proof fn lemma_rules_origin(
    o: ScanOptions,
    line: Seq<char>,
    st: ScanState,
    rules: Seq<(Seq<char>, Seq<char>)>,
    n: int,
)
    requires
        0 <= n <= rules.len(),
        from_rules(o, line, st.found, rules),
    ensures
        from_rules(o, line, scan_rules(o, line, st, rules.skip(n)).found, rules),
    decreases rules.len() - n,
{
    let rs = rules.skip(n);
    if rs.len() > 0 {
        assert(rs[0] == rules[n]);
        assert(regex_first_groups(rules[n].1, line).skip(0) == regex_first_groups(rules[n].1, line));
        lemma_matches_origin(o, line, st, rules, n, 0);
        assert(rs.drop_first() == rules.skip(n + 1));
        lemma_rules_origin(
            o,
            line,
            scan_matches(o, line, st, rules[n].0, regex_first_groups(rules[n].1, line)),
            rules,
            n + 1,
        );
    }
}

proof fn lemma_matches_grow(
    o: ScanOptions,
    line: Seq<char>,
    st: ScanState,
    kind: Seq<char>,
    ms: Seq<Option<Seq<char>>>,
)
    ensures
        scan_matches(o, line, st, kind, ms).found.len() >= st.found.len(),
        !o.clean && line_admitted(o, line) && !st.stopped && ms.len() > 0 ==> scan_matches(
            o,
            line,
            st,
            kind,
            ms,
        ).found.len() > st.found.len(),
    decreases ms.len(),
{
    if ms.len() > 0 {
        lemma_matches_grow(o, line, scan_step(o, line, st, kind, ms[0]), kind, ms.drop_first());
    }
}

proof fn lemma_rules_grow(
    o: ScanOptions,
    line: Seq<char>,
    st: ScanState,
    rules: Seq<(Seq<char>, Seq<char>)>,
)
    ensures
        scan_rules(o, line, st, rules).found.len() >= st.found.len(),
        !o.clean && line_admitted(o, line) && !st.stopped && (exists|k: int|
            0 <= k < rules.len() && regex_first_groups((#[trigger] rules[k]).1, line).len() > 0)
            ==> scan_rules(o, line, st, rules).found.len() > st.found.len(),
    decreases rules.len(),
{
    if rules.len() > 0 {
        let ms = regex_first_groups(rules[0].1, line);
        let next = scan_matches(o, line, st, rules[0].0, ms);
        lemma_matches_grow(o, line, st, rules[0].0, ms);
        lemma_rules_grow(o, line, next, rules.drop_first());
        if !o.clean && line_admitted(o, line) && !st.stopped && (exists|k: int|
            0 <= k < rules.len() && regex_first_groups((#[trigger] rules[k]).1, line).len() > 0)
            && ms.len() == 0 {
            let k = choose|k: int|
                0 <= k < rules.len() && regex_first_groups((#[trigger] rules[k]).1, line).len() > 0;
            assert(k != 0);
            assert(rules.drop_first()[k - 1] == rules[k]);
            assert(next == st);
        }
    }
}

/// Without `thorough`, a line yields at most one report: the scan stops at
/// the first.
pub proof fn law_first_report_only(
    o: ScanOptions,
    line: Seq<char>,
    rules: Seq<(Seq<char>, Seq<char>)>,
)
    requires
        !o.thorough,
    ensures
        line_findings(o, line, rules).len() <= 1,
{
    lemma_rules_ok(o, line, fresh_scan(), rules);
}

/// Every reported text passes the drop and filter expressions.
pub proof fn law_reports_are_worthy(
    o: ScanOptions,
    line: Seq<char>,
    rules: Seq<(Seq<char>, Seq<char>)>,
)
    ensures
        forall|i: int|
            0 <= i < line_findings(o, line, rules).len() ==> worthy(
                o,
                #[trigger] line_findings(o, line, rules)[i].1,
            ),
{
    lemma_rules_ok(o, line, fresh_scan(), rules);
}

/// A line that the filter expression does not admit yields nothing.
pub proof fn law_filter_gates_lines(
    o: ScanOptions,
    line: Seq<char>,
    rules: Seq<(Seq<char>, Seq<char>)>,
)
    requires
        !passes_filter(o, line),
    ensures
        line_findings(o, line, rules).len() == 0,
{
    lemma_inert_rules(o, line, fresh_scan(), rules);
}

/// Without `clean`, every report is the whole line.
pub proof fn law_whole_line_unless_clean(
    o: ScanOptions,
    line: Seq<char>,
    rules: Seq<(Seq<char>, Seq<char>)>,
)
    requires
        !o.clean,
    ensures
        forall|i: int|
            0 <= i < line_findings(o, line, rules).len() ==> (#[trigger] line_findings(
                o,
                line,
                rules,
            )[i]).1 == line,
{
    lemma_rules_ok(o, line, fresh_scan(), rules);
}

/// With `clean`, a line never reports the same text twice.
pub proof fn law_clean_reports_distinct(
    o: ScanOptions,
    line: Seq<char>,
    rules: Seq<(Seq<char>, Seq<char>)>,
)
    requires
        o.clean,
    ensures
        texts_distinct(line_findings(o, line, rules)),
{
    lemma_rules_ok(o, line, fresh_scan(), rules);
}

/// Every report names the content type of a rule that matches the line; with
/// `clean` its text is the first capture group of one of that rule's
/// matches, without `clean` it is the line itself.
pub proof fn law_reports_come_from_rules(
    o: ScanOptions,
    line: Seq<char>,
    rules: Seq<(Seq<char>, Seq<char>)>,
)
    ensures
        from_rules(o, line, line_findings(o, line, rules), rules),
{
    assert(rules.skip(0) == rules);
    lemma_rules_origin(o, line, fresh_scan(), rules, 0);
}

proof fn lemma_rules_no_match(
    o: ScanOptions,
    line: Seq<char>,
    st: ScanState,
    rules: Seq<(Seq<char>, Seq<char>)>,
)
    requires
        forall|k: int|
            0 <= k < rules.len() ==> regex_first_groups(#[trigger] rules[k].1, line).len() == 0,
    ensures
        scan_rules(o, line, st, rules) == st,
    decreases rules.len(),
{
    if rules.len() > 0 {
        assert(regex_first_groups(rules[0].1, line).len() == 0);
        assert forall|k: int| 0 <= k < rules.drop_first().len() implies regex_first_groups(
            #[trigger] rules.drop_first()[k].1,
            line,
        ).len() == 0 by {
            assert(rules.drop_first()[k] == rules[k + 1]);
        }
        lemma_rules_no_match(o, line, st, rules.drop_first());
    }
}

/// A line on which no rule matches yields nothing, not even the line itself.
pub proof fn law_no_match_no_report(
    o: ScanOptions,
    line: Seq<char>,
    rules: Seq<(Seq<char>, Seq<char>)>,
)
    requires
        forall|k: int|
            0 <= k < rules.len() ==> regex_first_groups(#[trigger] rules[k].1, line).len() == 0,
    ensures
        line_findings(o, line, rules).len() == 0,
{
    lemma_rules_no_match(o, line, fresh_scan(), rules);
}

/// Without `clean`, a worthy line on which some rule matches is reported:
/// once without `thorough` (by `law_first_report_only`), as the whole line
/// (by `law_whole_line_unless_clean`).
pub proof fn law_matched_line_is_reported(
    o: ScanOptions,
    line: Seq<char>,
    rules: Seq<(Seq<char>, Seq<char>)>,
)
    requires
        !o.clean,
        worthy(o, line),
        exists|k: int|
            0 <= k < rules.len() && regex_first_groups((#[trigger] rules[k]).1, line).len() > 0,
    ensures
        line_findings(o, line, rules).len() > 0,
{
    lemma_rules_grow(o, line, fresh_scan(), rules);
}

/// A text that a set drop expression matches is never worthy, whatever the
/// filter expression says.
pub proof fn law_drop_wins(o: ScanOptions, text: Seq<char>)
    requires
        o.drop.len() > 0,
        regex_is_match(o.drop, text),
    ensures
        !worthy(o, text),
{
}

/// A text that a set filter expression does not match is never worthy.
pub proof fn law_filter_required(o: ScanOptions, text: Seq<char>)
    requires
        o.filter.len() > 0,
        !regex_is_match(o.filter, text),
    ensures
        !worthy(o, text),
{
}

/// A text that escapes the drop expression (unset, or not matching) and that
/// the filter expression admits (unset, or matching) is worthy.
pub proof fn law_escaping_drop_and_admitted_is_worthy(o: ScanOptions, text: Seq<char>)
    requires
        o.drop.len() == 0 || !regex_is_match(o.drop, text),
        o.filter.len() == 0 || regex_is_match(o.filter, text),
    ensures
        worthy(o, text),
{
}

/// A first capture group that can be reported: present, and worthy.
pub open spec fn group_worthy(o: ScanOptions, g: Option<Seq<char>>) -> bool {
    match g {
        Some(t) => worthy(o, t),
        None => false,
    }
}

proof fn lemma_skip_unworthy_matches(
    o: ScanOptions,
    line: Seq<char>,
    st: ScanState,
    kind: Seq<char>,
    ms: Seq<Option<Seq<char>>>,
    j: int,
)
    requires
        o.clean,
        !st.stopped,
        passes_filter(o, line),
        0 <= j <= ms.len(),
        forall|i: int| 0 <= i < j ==> !group_worthy(o, #[trigger] ms[i]),
    ensures
        scan_matches(o, line, st, kind, ms) == scan_matches(o, line, st, kind, ms.skip(j)),
    decreases j,
{
    if j == 0 {
        assert(ms.skip(0) =~= ms);
    } else {
        lemma_skip_unworthy_matches(o, line, st, kind, ms, j - 1);
        let r = ms.skip(j - 1);
        assert(r[0] == ms[j - 1]);
        assert(!group_worthy(o, ms[j - 1]));
        assert(r.drop_first() =~= ms.skip(j));
        assert(scan_step(o, line, st, kind, ms[j - 1]) == st);
    }
}

proof fn lemma_skip_unworthy_rules(
    o: ScanOptions,
    line: Seq<char>,
    st: ScanState,
    rules: Seq<(Seq<char>, Seq<char>)>,
    k: int,
)
    requires
        o.clean,
        !st.stopped,
        passes_filter(o, line),
        0 <= k <= rules.len(),
        forall|k2: int, j2: int|
            0 <= k2 < k && 0 <= j2 < regex_first_groups(rules[k2].1, line).len() ==> !group_worthy(
                o,
                #[trigger] regex_first_groups(rules[k2].1, line)[j2],
            ),
    ensures
        scan_rules(o, line, st, rules) == scan_rules(o, line, st, rules.skip(k)),
    decreases k,
{
    if k == 0 {
        assert(rules.skip(0) =~= rules);
    } else {
        lemma_skip_unworthy_rules(o, line, st, rules, k - 1);
        let r = rules.skip(k - 1);
        let g = regex_first_groups(rules[k - 1].1, line);
        assert(r[0] == rules[k - 1]);
        assert(r.drop_first() =~= rules.skip(k));
        assert forall|i: int| 0 <= i < g.len() implies !group_worthy(o, #[trigger] g[i]) by {}
        lemma_skip_unworthy_matches(o, line, st, rules[k - 1].0, g, g.len() as int);
        assert(g.skip(g.len() as int) =~= Seq::<Option<Seq<char>>>::empty());
    }
}

/// With `clean` and without `thorough`, on a line the filter expression
/// admits, the line yields exactly one report: the first capture group, in
/// rule order and then match order, that is present and worthy, with its
/// rule's content type. Matches before it that are not reported do not end
/// the scan.
pub proof fn law_clean_reports_first_worthy_group(
    o: ScanOptions,
    line: Seq<char>,
    rules: Seq<(Seq<char>, Seq<char>)>,
    k: int,
    j: int,
)
    requires
        o.clean,
        !o.thorough,
        passes_filter(o, line),
        0 <= k < rules.len(),
        0 <= j < regex_first_groups(rules[k].1, line).len(),
        group_worthy(o, regex_first_groups(rules[k].1, line)[j]),
        forall|k2: int, j2: int|
            0 <= k2 < k && 0 <= j2 < regex_first_groups(rules[k2].1, line).len() ==> !group_worthy(
                o,
                #[trigger] regex_first_groups(rules[k2].1, line)[j2],
            ),
        forall|j2: int|
            0 <= j2 < j ==> !group_worthy(o, #[trigger] regex_first_groups(rules[k].1, line)[j2]),
    ensures
        line_findings(o, line, rules) == seq![
            (rules[k].0, regex_first_groups(rules[k].1, line)[j]->Some_0),
        ],
{
    let st = fresh_scan();
    let g = regex_first_groups(rules[k].1, line);
    let kind = rules[k].0;
    let t = g[j]->Some_0;
    lemma_skip_unworthy_rules(o, line, st, rules, k);
    let r = rules.skip(k);
    assert(r[0] == rules[k]);
    assert(r.drop_first() =~= rules.skip(k + 1));
    lemma_skip_unworthy_matches(o, line, st, kind, g, j);
    let gs = g.skip(j);
    assert(gs[0] == g[j]);
    assert(gs.drop_first() =~= g.skip(j + 1));
    let reported = scan_step(o, line, st, kind, g[j]);
    assert(reported.stopped);
    assert(reported.found =~= seq![(kind, t)]);
    lemma_inert_matches(o, line, reported, kind, g.skip(j + 1));
    lemma_inert_rules(o, line, reported, rules.skip(k + 1));
}

/// With `clean`, a line on which no match has a present, worthy first
/// capture group yields nothing.
pub proof fn law_clean_without_worthy_group_reports_nothing(
    o: ScanOptions,
    line: Seq<char>,
    rules: Seq<(Seq<char>, Seq<char>)>,
)
    requires
        o.clean,
        forall|k2: int, j2: int|
            0 <= k2 < rules.len() && 0 <= j2 < regex_first_groups(rules[k2].1, line).len()
                ==> !group_worthy(o, #[trigger] regex_first_groups(rules[k2].1, line)[j2]),
    ensures
        line_findings(o, line, rules).len() == 0,
{
    if passes_filter(o, line) {
        lemma_skip_unworthy_rules(o, line, fresh_scan(), rules, rules.len() as int);
        assert(rules.skip(rules.len() as int) =~= Seq::<(Seq<char>, Seq<char>)>::empty());
    } else {
        lemma_inert_rules(o, line, fresh_scan(), rules);
    }
}

/// Every text marked as seen has been reported.
pub open spec fn seen_reported(st: ScanState) -> bool {
    forall|t: Seq<char>|
        #![trigger st.seen.contains(t)]
        st.seen.contains(t) ==> exists|i: int| 0 <= i < st.found.len() && st.found[i].1 == t
}

proof fn lemma_thorough_matches_cover(
    o: ScanOptions,
    line: Seq<char>,
    st: ScanState,
    kind: Seq<char>,
    ms: Seq<Option<Seq<char>>>,
)
    requires
        o.clean,
        o.thorough,
        passes_filter(o, line),
        !st.stopped,
        seen_reported(st),
    ensures
        !scan_matches(o, line, st, kind, ms).stopped,
        seen_reported(scan_matches(o, line, st, kind, ms)),
        st.seen.subset_of(scan_matches(o, line, st, kind, ms).seen),
        forall|j: int|
            0 <= j < ms.len() && group_worthy(o, #[trigger] ms[j]) ==> scan_matches(
                o,
                line,
                st,
                kind,
                ms,
            ).seen.contains(ms[j]->Some_0),
    decreases ms.len(),
{
    if ms.len() > 0 {
        let next = scan_step(o, line, st, kind, ms[0]);
        assert(seen_reported(next)) by {
            assert forall|t: Seq<char>| next.seen.contains(t) implies exists|i: int|
                0 <= i < next.found.len() && next.found[i].1 == t by {
                if next != st {
                    if st.seen.contains(t) {
                        let i = choose|i: int| 0 <= i < st.found.len() && st.found[i].1 == t;
                        assert(next.found[i] == st.found[i]);
                    } else {
                        assert(next.found[st.found.len() as int].1 == t);
                    }
                }
            }
        }
        lemma_thorough_matches_cover(o, line, next, kind, ms.drop_first());
        let r = scan_matches(o, line, st, kind, ms);
        assert forall|j: int| 0 <= j < ms.len() && group_worthy(o, #[trigger] ms[j]) implies r.seen.contains(
            ms[j]->Some_0,
        ) by {
            if j == 0 {
                assert(next.seen.contains(ms[0]->Some_0));
            } else {
                assert(ms.drop_first()[j - 1] == ms[j]);
            }
        }
    }
}

proof fn lemma_thorough_rules_cover(
    o: ScanOptions,
    line: Seq<char>,
    st: ScanState,
    rules: Seq<(Seq<char>, Seq<char>)>,
)
    requires
        o.clean,
        o.thorough,
        passes_filter(o, line),
        !st.stopped,
        seen_reported(st),
    ensures
        seen_reported(scan_rules(o, line, st, rules)),
        forall|k: int, j: int|
            0 <= k < rules.len() && 0 <= j < regex_first_groups(rules[k].1, line).len()
                && group_worthy(o, #[trigger] regex_first_groups(rules[k].1, line)[j])
                ==> scan_rules(o, line, st, rules).seen.contains(
                regex_first_groups(rules[k].1, line)[j]->Some_0,
            ),
    decreases rules.len(),
{
    if rules.len() > 0 {
        let g = regex_first_groups(rules[0].1, line);
        let next = scan_matches(o, line, st, rules[0].0, g);
        lemma_thorough_matches_cover(o, line, st, rules[0].0, g);
        lemma_thorough_rules_cover(o, line, next, rules.drop_first());
        let r = scan_rules(o, line, st, rules);
        lemma_seen_grows_rules(o, line, next, rules.drop_first());
        assert forall|k: int, j: int|
            0 <= k < rules.len() && 0 <= j < regex_first_groups(rules[k].1, line).len()
                && group_worthy(o, #[trigger] regex_first_groups(rules[k].1, line)[j]) implies r.seen.contains(
            regex_first_groups(rules[k].1, line)[j]->Some_0,
        ) by {
            if k == 0 {
                assert(next.seen.contains(g[j]->Some_0));
            } else {
                assert(rules.drop_first()[k - 1] == rules[k]);
            }
        }
    }
}

proof fn lemma_seen_grows_matches(
    o: ScanOptions,
    line: Seq<char>,
    st: ScanState,
    kind: Seq<char>,
    ms: Seq<Option<Seq<char>>>,
)
    ensures
        st.seen.subset_of(scan_matches(o, line, st, kind, ms).seen),
    decreases ms.len(),
{
    if ms.len() > 0 {
        lemma_seen_grows_matches(o, line, scan_step(o, line, st, kind, ms[0]), kind, ms.drop_first());
    }
}

proof fn lemma_seen_grows_rules(
    o: ScanOptions,
    line: Seq<char>,
    st: ScanState,
    rules: Seq<(Seq<char>, Seq<char>)>,
)
    ensures
        st.seen.subset_of(scan_rules(o, line, st, rules).seen),
    decreases rules.len(),
{
    if rules.len() > 0 {
        let g = regex_first_groups(rules[0].1, line);
        lemma_seen_grows_matches(o, line, st, rules[0].0, g);
        lemma_seen_grows_rules(o, line, scan_matches(o, line, st, rules[0].0, g), rules.drop_first());
    }
}

/// With `clean` and `thorough`, on a line the filter expression admits,
/// every present, worthy first capture group of every match of every rule
/// is reported (once, by `law_clean_reports_distinct`).
pub proof fn law_clean_thorough_reports_every_worthy_group(
    o: ScanOptions,
    line: Seq<char>,
    rules: Seq<(Seq<char>, Seq<char>)>,
    k: int,
    j: int,
)
    requires
        o.clean,
        o.thorough,
        passes_filter(o, line),
        0 <= k < rules.len(),
        0 <= j < regex_first_groups(rules[k].1, line).len(),
        group_worthy(o, regex_first_groups(rules[k].1, line)[j]),
    ensures
        exists|i: int|
            0 <= i < line_findings(o, line, rules).len() && line_findings(o, line, rules)[i].1
                == regex_first_groups(rules[k].1, line)[j]->Some_0,
{
    lemma_thorough_rules_cover(o, line, fresh_scan(), rules);
    let r = scan_rules(o, line, fresh_scan(), rules);
    let t = regex_first_groups(rules[k].1, line)[j]->Some_0;
    assert(r.seen.contains(t));
    assert(seen_reported(r));
    let i = choose|i: int| 0 <= i < r.found.len() && r.found[i].1 == t;
    assert(line_findings(o, line, rules) == r.found);
    assert(line_findings(o, line, rules)[i].1 == t);
}

} // verus!
