//! The extraction state: the settings taken from the command line, the file
//! being read and the number of lines read from it.

use vstd::prelude::*;
use vstd::string::*;
use crate::arguments::{Arguments, option_string, option_text};
use crate::pattern::{Pattern, PatternError, regex_compiles, regex_is_match, occurs_in, optional_texts};
use crate::rules::{Rule, rules_view, select_rules, chosen_rules, table_compiles, rule_entry, RULE_COUNT};
use crate::message::{csv_row, text_row, csv_header, format_csv_row, format_text_row, format_csv_header};
use crate::text::{two_digits, push_two_digits};
use crate::scan::{
    ScanOptions, ScanState, Finding, findings_view, worthy, passes_filter, line_admitted, fresh_scan,
    scan_step, scan_matches, scan_rules, line_findings, lemma_inert_rules, lemma_stop_ends_line,
};

verus! {

/// The expression that the drop and filter expressions hold before the
/// command line sets them. It is never used for matching: an unset (empty)
/// expression is not consulted.
pub const PLACEHOLDER_EXPRESSION: &'static str = ".{10,}";

/// The settings and counters of a run, as plain values.
pub struct SurgeonView {
    /// The command line.
    pub matches: Arguments,
    /// Where results are written (empty: standard output).
    pub output_file: Seq<char>,
    /// The drop expression (empty: unset).
    pub drop: Seq<char>,
    /// The filter expression (empty: unset).
    pub filter: Seq<char>,
    /// The text of the compiled drop expression.
    pub drop_regex: Seq<char>,
    /// The text of the compiled filter expression.
    pub filter_regex: Seq<char>,
    /// The file being read (empty: none named).
    pub filename: Seq<char>,
    /// The directory to walk (empty: none named).
    pub directory: Seq<char>,
    pub clean: bool,
    pub count: bool,
    pub is_output: bool,
    pub thorough: bool,
    pub hide_type: bool,
    pub display: bool,
    pub is_csv: bool,
    pub ignore: bool,
    /// Lines read so far from the current input, readable or not.
    pub line_count: int,
}

impl SurgeonView {
    /// The settings that decide what a line yields.
    pub open spec fn scan_options(self) -> ScanOptions {
        ScanOptions { clean: self.clean, thorough: self.thorough, drop: self.drop, filter: self.filter }
    }

    /// A set drop (filter) expression is the one that is compiled.
    pub open spec fn compiled_as_set(self) -> bool {
        &&& self.drop.len() > 0 ==> self.drop_regex == self.drop
        &&& self.filter.len() > 0 ==> self.filter_regex == self.filter
    }
}

/// An output file name that selects CSV output: it ends in `.csv`.
pub open spec fn names_csv(name: Seq<char>) -> bool {
    name.len() >= 4 && name.subrange(name.len() - 4, name.len() as int) == seq!['.', 'c', 's', 'v']
}

/// The settings after they are read from the command line of `v`: a set
/// drop (filter) expression is also compiled; an unset one keeps the
/// compiled expression it had.
pub open spec fn configured(v: SurgeonView) -> SurgeonView {
    let output_file = option_text(v.matches.output);
    let drop = option_text(v.matches.drop);
    let filter = option_text(v.matches.filter);
    SurgeonView {
        output_file,
        is_output: output_file.len() > 0,
        clean: v.matches.clean,
        count: v.matches.count,
        thorough: v.matches.thorough,
        hide_type: v.matches.hide,
        display: v.matches.display,
        ignore: v.matches.ignore,
        filename: option_text(v.matches.file),
        directory: option_text(v.matches.directory),
        drop,
        filter,
        drop_regex: if drop.len() > 0 {
            drop
        } else {
            v.drop_regex
        },
        filter_regex: if filter.len() > 0 {
            filter
        } else {
            v.filter_regex
        },
        is_csv: if output_file.len() > 0 {
            names_csv(output_file)
        } else {
            v.is_csv
        },
        ..v
    }
}

/// A drop or filter expression is usable: unset (empty), or it compiles.
pub open spec fn usable_expression(e: Seq<char>) -> bool {
    e.len() == 0 || regex_compiles(e)
}

/// Where the lines come from.
pub enum InputSource {
    /// The named file.
    File,
    /// Every file under the named directory.
    Directory,
    /// Standard input.
    Stdin,
}

/// The kind of a failed file operation.
pub enum IoFailureKind {
    NotFound,
    PermissionDenied,
    WriteZero,
    Other,
}

/// A failed file operation: its kind and the system's description of it.
pub struct IoFailure {
    pub kind: IoFailureKind,
    pub text: String,
}

/// What to do when writing to the output file failed. The message is an
/// error message, which `--ignore` silences.
pub struct WriteFailure {
    /// The message to show.
    pub message: String,
    /// The run ends (with status 1).
    pub fatal: bool,
}

/// The text of one report under the settings `v`.
pub open spec fn message_text(v: SurgeonView, kind: Seq<char>, data: Seq<char>) -> Seq<char> {
    if v.is_csv {
        csv_row(v.hide_type, v.display, v.count, v.filename, v.line_count as nat, kind, data)
    } else {
        text_row(v.hide_type, v.display, v.count, v.filename, v.line_count as nat, kind, data)
    }
}

/// The notice shown before standard input is read.
pub open spec fn stdin_notice_text() -> Seq<char> {
    "[*] Reading standard input. If you meant to analyze a file use 'ds -f <FILE>' (ctrl+c to exit)"@
}

/// A drop or filter expression: its text and a compiled expression, which is
/// compiled from the text whenever the text is set (not empty).
struct Expression {
    text: String,
    compiled: Pattern,
}

impl Expression {
    #[verifier::type_invariant]
    spec fn compiled_from_text(self) -> bool {
        self.text@.len() > 0 ==> self.compiled@ == self.text@
    }

    /// Whether the expression is set and matches `text`.
    fn set_and_matches(&self, text: &str) -> (r: bool)
        ensures
            r == (self.text@.len() > 0 && regex_is_match(self.text@, text@)),
    {
        proof {
            use_type_invariant(self);
        }
        !self.text.as_str().is_empty() && self.compiled.is_match(text)
    }
}

/// The extraction state.
pub struct DataSurgeon {
    matches: Arguments,
    output_file: String,
    drop: Expression,
    filter: Expression,
    filename: String,
    directory: String,
    clean: bool,
    count: bool,
    is_output: bool,
    thorough: bool,
    hide_type: bool,
    display: bool,
    is_csv: bool,
    ignore: bool,
    line_count: u32,
}

impl View for DataSurgeon {
    type V = SurgeonView;

    closed spec fn view(&self) -> SurgeonView {
        SurgeonView {
            matches: self.matches,
            output_file: self.output_file@,
            drop: self.drop.text@,
            filter: self.filter.text@,
            drop_regex: self.drop.compiled@,
            filter_regex: self.filter.compiled@,
            filename: self.filename@,
            directory: self.directory@,
            clean: self.clean,
            count: self.count,
            is_output: self.is_output,
            thorough: self.thorough,
            hide_type: self.hide_type,
            display: self.display,
            is_csv: self.is_csv,
            ignore: self.ignore,
            line_count: self.line_count as int,
        }
    }
}

/// Whether `list` holds a string equal to `s`.
fn contains_text(list: &Vec<String>, s: &String) -> (r: bool)
    ensures
        r <==> exists|k: int| 0 <= k < list@.len() && (#[trigger] list@[k])@ == s@,
{
    let mut i: usize = 0;
    while i < list.len()
        invariant
            i <= list@.len(),
            forall|k: int| 0 <= k < i ==> (#[trigger] list@[k])@ != s@,
        decreases list@.len() - i,
    {
        if list[i] == *s {
            return true;
        }
        i = i + 1;
    }
    false
}

/// Whether `name` ends in `.csv`: there is a `.` in it and the text after
/// the last one is `csv`.
fn is_csv_name(name: &str) -> (r: bool)
    ensures
        r == names_csv(name@),
{
    let n: usize = name.unicode_len();
    let mut i: usize = n;
    while i > 0 && name.get_char(i - 1) != '.'
        invariant
            n == name@.len(),
            i <= n,
            forall|k: int| i <= k < n ==> name@[k] != '.',
        decreases i,
    {
        i = i - 1;
    }
    let ghost s = name@;
    if i == 0 {
        assert(!names_csv(s)) by {
            if names_csv(s) {
                assert(s.subrange(n - 4, n as int)[0] == s[n - 4]);
            }
        }
        false
    } else if n - i != 3 {
        assert(!names_csv(s)) by {
            if names_csv(s) {
                assert(s.subrange(n - 4, n as int)[0] == s[n - 4]);
                assert(s.subrange(n - 4, n as int)[1] == s[n - 3]);
                assert(s.subrange(n - 4, n as int)[2] == s[n - 2]);
                assert(s.subrange(n - 4, n as int)[3] == s[n - 1]);
            }
        }
        false
    } else {
        let r = name.get_char(i) == 'c' && name.get_char(i + 1) == 's' && name.get_char(i + 2) == 'v';
        assert(r == names_csv(s)) by {
            if r {
                assert(s.subrange(n - 4, n as int) =~= seq!['.', 'c', 's', 'v']);
            }
            if names_csv(s) {
                assert(s.subrange(n - 4, n as int)[1] == s[n - 3]);
                assert(s.subrange(n - 4, n as int)[2] == s[n - 2]);
                assert(s.subrange(n - 4, n as int)[3] == s[n - 1]);
            }
        }
        r
    }
}

impl DataSurgeon {
    /// A fresh state for the command line `matches`: no settings read yet,
    /// no line read, and both expressions holding the placeholder expression
    /// (compiled twice, once for each). Fails exactly when the placeholder
    /// does not compile.
    pub fn new(matches: Arguments) -> (r: Result<Self, PatternError>)
        ensures
            r is Ok <==> regex_compiles(PLACEHOLDER_EXPRESSION@),
            r matches Err(e) ==> e.pattern@ == PLACEHOLDER_EXPRESSION@,
            r matches Ok(s) ==> s@.compiled_as_set(),
            r matches Ok(s) ==> s@ == (SurgeonView {
                matches,
                output_file: seq![],
                drop: seq![],
                filter: seq![],
                drop_regex: PLACEHOLDER_EXPRESSION@,
                filter_regex: PLACEHOLDER_EXPRESSION@,
                filename: seq![],
                directory: seq![],
                clean: false,
                count: false,
                is_output: false,
                thorough: false,
                hide_type: false,
                display: false,
                is_csv: false,
                ignore: false,
                line_count: 0,
            }),
    {
        let drop_regex = match Pattern::new(PLACEHOLDER_EXPRESSION) {
            Ok(p) => p,
            Err(e) => {
                return Err(e);
            },
        };
        let filter_regex = match Pattern::new(PLACEHOLDER_EXPRESSION) {
            Ok(p) => p,
            Err(e) => {
                return Err(e);
            },
        };
        Ok(
            DataSurgeon {
                matches,
                output_file: String::new(),
                drop: Expression { text: String::new(), compiled: drop_regex },
                filter: Expression { text: String::new(), compiled: filter_regex },
                filename: String::new(),
                directory: String::new(),
                clean: false,
                count: false,
                is_output: false,
                thorough: false,
                hide_type: false,
                display: false,
                is_csv: false,
                ignore: false,
                line_count: 0,
            },
        )
    }

    /// Reads the settings from the command line; a set drop (filter)
    /// expression is compiled. The command line's drop and filter
    /// expressions must be unset or compile: `try_build_arguments` tests that
    /// first.
    pub fn build_arguments(&mut self)
        requires
            usable_expression(option_text(old(self)@.matches.drop)),
            usable_expression(option_text(old(self)@.matches.filter)),
        ensures
            final(self)@ == configured(old(self)@),
            final(self)@.compiled_as_set(),
    {
        let drop = option_string(&self.matches.drop);
        let filter = option_string(&self.matches.filter);
        let drop_regex = if !drop.as_str().is_empty() {
            match Pattern::new(drop.as_str()) {
                Ok(p) => Some(p),
                Err(_) => {
                    proof {
                        assert(false);
                    }
                    None
                },
            }
        } else {
            None
        };
        let filter_regex = if !filter.as_str().is_empty() {
            match Pattern::new(filter.as_str()) {
                Ok(p) => Some(p),
                Err(_) => {
                    proof {
                        assert(false);
                    }
                    None
                },
            }
        } else {
            None
        };
        self.apply_settings(drop, drop_regex, filter, filter_regex);
        proof {
            use_type_invariant(&self.drop);
            use_type_invariant(&self.filter);
        }
    }

    /// Tests that the drop and filter expressions are unset or compile, then
    /// reads the settings (`build_arguments`). Fails, changing nothing,
    /// exactly when one of them is set and does not compile (the drop
    /// expression is tried first).
    pub fn try_build_arguments(&mut self) -> (r: Result<(), PatternError>)
        ensures
            r is Ok <==> (usable_expression(option_text(old(self)@.matches.drop))
                && usable_expression(option_text(old(self)@.matches.filter))),
            r is Ok ==> final(self)@ == configured(old(self)@),
            r is Ok ==> final(self)@.compiled_as_set(),
            r is Err ==> final(self)@ == old(self)@,
            r matches Err(e) ==> if !usable_expression(option_text(old(self)@.matches.drop)) {
                e.pattern@ == option_text(old(self)@.matches.drop)
            } else {
                e.pattern@ == option_text(old(self)@.matches.filter)
            },
    {
        let drop = option_string(&self.matches.drop);
        if !drop.as_str().is_empty() {
            if let Err(e) = Pattern::new(drop.as_str()) {
                return Err(e);
            }
        }
        let filter = option_string(&self.matches.filter);
        if !filter.as_str().is_empty() {
            if let Err(e) = Pattern::new(filter.as_str()) {
                return Err(e);
            }
        }
        self.build_arguments();
        Ok(())
    }

    /// Takes the settings from the command line, with the drop and filter
    /// expressions already read (and compiled when set).
    fn apply_settings(
        &mut self,
        drop: String,
        drop_regex: Option<Pattern>,
        filter: String,
        filter_regex: Option<Pattern>,
    )
        requires
            drop@ == option_text(old(self)@.matches.drop),
            filter@ == option_text(old(self)@.matches.filter),
            drop_regex is Some <==> drop@.len() > 0,
            drop_regex matches Some(p) ==> p@ == drop@,
            filter_regex is Some <==> filter@.len() > 0,
            filter_regex matches Some(p) ==> p@ == filter@,
        ensures
            final(self)@ == configured(old(self)@),
    {
        self.apply_flags();
        match drop_regex {
            Some(p) => {
                self.drop = Expression { text: drop, compiled: p };
            },
            None => {
                self.drop.text = drop;
            },
        }
        match filter_regex {
            Some(p) => {
                self.filter = Expression { text: filter, compiled: p };
            },
            None => {
                self.filter.text = filter;
            },
        }
    }

    /// Takes the settings other than the drop and filter expressions from the
    /// command line.
    fn apply_flags(&mut self)
        ensures
            final(self)@ == (SurgeonView {
                drop: old(self)@.drop,
                filter: old(self)@.filter,
                drop_regex: old(self)@.drop_regex,
                filter_regex: old(self)@.filter_regex,
                ..configured(old(self)@)
            }),
    {
        self.output_file = option_string(&self.matches.output);
        self.is_output = !self.output_file.as_str().is_empty();
        self.clean = self.matches.clean;
        self.count = self.matches.count;
        self.thorough = self.matches.thorough;
        self.hide_type = self.matches.hide;
        self.display = self.matches.display;
        self.ignore = self.matches.ignore;
        self.filename = option_string(&self.matches.file);
        self.directory = option_string(&self.matches.directory);
        if self.is_output {
            self.is_csv = is_csv_name(self.output_file.as_str());
        }
    }

    /// The rules this run uses: every built-in rule when the command line
    /// asks for no content type, else those it asks for, in table order.
    /// Fails exactly when a built-in expression does not compile.
    pub fn build_regex_query(&self) -> (r: Result<Vec<Rule>, PatternError>)
        ensures
            r is Ok <==> table_compiles(),
            r matches Ok(rules) ==> rules_view(rules@) == chosen_rules(self@.matches),
            r matches Err(e) ==> exists|i: int|
                0 <= i < RULE_COUNT && e.pattern@ == rule_entry(i).1 && !regex_compiles(
                    #[trigger] rule_entry(i).1,
                ),
    {
        select_rules(&self.matches)
    }

    /// Whether the filter expression admits `text`: it is unset or matches.
    fn filter_admits(&self, text: &str) -> (r: bool)
        ensures
            r == passes_filter(self@.scan_options(), text@),
    {
        self.filter.text.as_str().is_empty() || self.filter.set_and_matches(text)
    }

    /// Whether `line` may be reported: the drop expression, when set, does
    /// not match it, and the filter expression, when set, does.
    pub fn is_worthy(&self, line: &str) -> (r: bool)
        ensures
            r == worthy(self@.scan_options(), line@),
            self@.compiled_as_set(),
    {
        proof {
            use_type_invariant(&self.drop);
            use_type_invariant(&self.filter);
        }
        if self.drop.set_and_matches(line) {
            return false;
        }
        self.filter_admits(line)
    }

    /// Reads one line, `input`, which is `None` for a line that could not be
    /// read: counts it, and returns what it yields under `rules` (an
    /// unreadable line yields nothing).
    pub fn handle(&mut self, input: Option<&str>, rules: &Vec<Rule>) -> (found: Vec<Finding>)
        requires
            old(self)@.line_count < i32::MAX,
        ensures
            final(self)@ == (SurgeonView { line_count: old(self)@.line_count + 1, ..old(self)@ }),
            input is None ==> found@.len() == 0,
            input matches Some(l) ==> findings_view(found@) == line_findings(
                old(self)@.scan_options(),
                l@,
                rules_view(rules@),
            ),
            input matches Some(l) ==> forall|k: int|
                0 <= k < found@.len() ==> occurs_in((#[trigger] found@[k]).data@, l@),
            input matches Some(l) ==> forall|m: int|
                0 <= m < found@.len() ==> exists|k: int|
                    0 <= k < rules@.len() && (#[trigger] rules@[k]).content_type@ == (
                    #[trigger] found@[m]).content_type@ && regex_is_match(rules@[k].pattern@, l@),
            input matches Some(l) ==> (forall|k: int|
                0 <= k < rules@.len() ==> !regex_is_match((#[trigger] rules@[k]).pattern@, l@))
                ==> found@.len() == 0,
            final(self)@.compiled_as_set(),
            input matches Some(l) ==> (!old(self)@.clean && !old(self)@.thorough && worthy(
                old(self)@.scan_options(),
                l@,
            ) && exists|k: int|
                0 <= k < rules@.len() && regex_is_match((#[trigger] rules@[k]).pattern@, l@)) ==> (
            found@.len() == 1 && found@[0].data@ == l@),
    {
        proof {
            use_type_invariant(&self.drop);
            use_type_invariant(&self.filter);
        }
        let ghost o = old(self)@.scan_options();
        let ghost rv = rules_view(rules@);
        self.line_count = self.line_count + 1;
        let ghost v1 = self@;
        assert(v1.compiled_as_set());
        let line = match input {
            Some(l) => l,
            None => {
                return Vec::new();
            },
        };
        let ghost total = scan_rules(o, line@, fresh_scan(), rv);
        let ghost report_case = !o.clean && !o.thorough && worthy(o, line@);
        let admitted = if self.clean {
            self.filter_admits(line)
        } else {
            self.is_worthy(line)
        };
        if !admitted {
            proof {
                lemma_inert_rules(o, line@, fresh_scan(), rv);
            }
            return Vec::new();
        }
        let mut found: Vec<Finding> = Vec::new();
        let mut seen: Vec<String> = Vec::new();
        let ghost mut st = fresh_scan();
        proof {
            assert(rv.skip(0) == rv);
        }
        let mut i: usize = 0;
        while i < rules.len()
            invariant
                self@ == v1,
                v1.compiled_as_set(),
                input == Some(line),
                v1 == (SurgeonView { line_count: old(self)@.line_count + 1, ..old(self)@ }),
                o == self@.scan_options(),
                total == scan_rules(o, line@, fresh_scan(), rv),
                report_case == (!o.clean && !o.thorough && worthy(o, line@)),
                line_admitted(o, line@),
                i <= rules@.len(),
                rv == rules_view(rules@),
                scan_rules(o, line@, st, rv.skip(i as int)) == total,
                !st.stopped,
                !o.thorough ==> found@.len() == 0,
                report_case ==> forall|k: int|
                    0 <= k < i ==> !regex_is_match((#[trigger] rules@[k]).pattern@, line@),
                findings_view(found@) == st.found,
                forall|x: Seq<char>|
                    st.seen.contains(x) <==> exists|k: int|
                        0 <= k < seen@.len() && (#[trigger] seen@[k])@ == x,
                forall|k: int|
                    0 <= k < found@.len() ==> occurs_in((#[trigger] found@[k]).data@, line@),
                forall|m: int|
                    0 <= m < found@.len() ==> exists|k: int|
                        0 <= k < rules@.len() && (#[trigger] rules@[k]).content_type@ == (
                        #[trigger] found@[m]).content_type@ && regex_is_match(rules@[k].pattern@, line@),
            decreases rules@.len() - i,
        {
            let rule = &rules[i];
            let groups = rule.pattern.first_groups(line);
            let ghost msv = optional_texts(groups@);
            let ghost kind = rule.content_type@;
            let ghost entry = st;
            proof {
                assert(rv.skip(i as int).drop_first() == rv.skip(i + 1));
                assert(rv.skip(i as int)[0] == rule@);
                assert(msv.skip(0) == msv);
            }
            let mut j: usize = 0;
            while j < groups.len()
                invariant
                    self@ == v1,
                    v1.compiled_as_set(),
                    input == Some(line),
                    v1 == (SurgeonView { line_count: old(self)@.line_count + 1, ..old(self)@ }),
                    o == self@.scan_options(),
                    total == scan_rules(o, line@, fresh_scan(), rv),
                    report_case == (!o.clean && !o.thorough && worthy(o, line@)),
                    line_admitted(o, line@),
                    i < rules@.len(),
                    rule == &rules@[i as int],
                    kind == rule.content_type@,
                    rv == rules_view(rules@),
                    j <= groups@.len(),
                    report_case ==> j == 0,
                    msv == optional_texts(groups@),
                    msv == crate::pattern::regex_first_groups(rule.pattern@, line@),
                    groups@.len() > 0 <==> regex_is_match(rule.pattern@, line@),
                    forall|k: int|
                        0 <= k < groups@.len() ==> (#[trigger] groups@[k] matches Some(t)
                            ==> occurs_in(t@, line@)),
                    scan_rules(o, line@, scan_matches(o, line@, entry, kind, msv), rv.skip(i + 1))
                        == total,
                    scan_matches(o, line@, st, kind, msv.skip(j as int)) == scan_matches(
                        o,
                        line@,
                        entry,
                        kind,
                        msv,
                    ),
                    !st.stopped,
                    !o.thorough ==> found@.len() == 0,
                    findings_view(found@) == st.found,
                    forall|x: Seq<char>|
                        st.seen.contains(x) <==> exists|k: int|
                            0 <= k < seen@.len() && (#[trigger] seen@[k])@ == x,
                    forall|k: int|
                        0 <= k < found@.len() ==> occurs_in((#[trigger] found@[k]).data@, line@),
                    forall|m: int|
                        0 <= m < found@.len() ==> exists|k: int|
                            0 <= k < rules@.len() && (#[trigger] rules@[k]).content_type@ == (
                            #[trigger] found@[m]).content_type@ && regex_is_match(rules@[k].pattern@, line@),
                decreases groups@.len() - j,
            {
                let ghost before = st;
                let ghost g = msv[j as int];
                proof {
                    st = scan_step(o, line@, st, kind, g);
                }
                if !self.clean {
                    let ghost fb = found@;
                    found.push(
                        Finding { content_type: rule.content_type.clone(), data: line.to_owned() },
                    );
                    assert(findings_view(found@) == findings_view(fb).push((kind, line@)));
                    assert forall|m: int| 0 <= m < found@.len() implies exists|k: int|
                        0 <= k < rules@.len() && (#[trigger] rules@[k]).content_type@ == (
                        #[trigger] found@[m]).content_type@ && regex_is_match(rules@[k].pattern@, line@) by {
                        if m < fb.len() {
                            assert(found@[m] == fb[m]);
                        } else {
                            assert(rules@[i as int].content_type@ == found@[m].content_type@);
                        }
                    }
                    assert(line@.subrange(0int, 0int + line@.len()) == line@);
                    if !self.thorough {
                        proof {
                            lemma_stop_ends_line(o, line@, total, entry, before, st, kind, msv, j as int, rv.skip(i + 1));
                        }
                        return found;
                    }
                } else {
                    match &groups[j] {
                        Some(t) => {
                            assert(g == Some(t@));
                            if self.is_worthy(t.as_str()) && !contains_text(&seen, t) {
                                let ghost fb = found@;
                                let ghost sb = seen@;
                                seen.push(t.clone());
                                found.push(
                                    Finding { content_type: rule.content_type.clone(), data: t.clone() },
                                );
                                assert(findings_view(found@) == findings_view(fb).push((kind, t@)));
                                assert forall|m: int| 0 <= m < found@.len() implies exists|k: int|
                                    0 <= k < rules@.len() && (#[trigger] rules@[k]).content_type@ == (
                                    #[trigger] found@[m]).content_type@ && regex_is_match(rules@[k].pattern@, line@) by {
                                    if m < fb.len() {
                                        assert(found@[m] == fb[m]);
                                    } else {
                                        assert(rules@[i as int].content_type@ == found@[m].content_type@);
                                    }
                                }
                                assert forall|x: Seq<char>|
                                    st.seen.contains(x) <==> exists|k: int|
                                        0 <= k < seen@.len() && (#[trigger] seen@[k])@ == x by {
                                    if x == t@ {
                                        assert(seen@[sb.len() as int]@ == x);
                                    }
                                    if exists|k: int| 0 <= k < seen@.len() && (#[trigger] seen@[k])@ == x {
                                        let k = choose|k: int|
                                            0 <= k < seen@.len() && (#[trigger] seen@[k])@ == x;
                                        if k < sb.len() {
                                            assert(sb[k] == seen@[k]);
                                        }
                                    }
                                    if exists|k: int| 0 <= k < sb.len() && (#[trigger] sb[k])@ == x {
                                        let k = choose|k: int| 0 <= k < sb.len() && (#[trigger] sb[k])@ == x;
                                        assert(seen@[k] == sb[k]);
                                    }
                                }
                                if !self.thorough {
                                    proof {
                                        lemma_stop_ends_line(o, line@, total, entry, before, st, kind, msv, j as int, rv.skip(i + 1));
                                    }
                                    return found;
                                }
                            }
                        },
                        None => {
                            assert(g is None);
                        },
                    }
                }
                proof {
                    assert(msv.skip(j as int).drop_first() == msv.skip(j + 1));
                    assert(msv.skip(j as int)[0] == g);
                }
                j = j + 1;
            }
            proof {
                assert(msv.skip(groups@.len() as int) =~= Seq::<Option<Seq<char>>>::empty());
            }
            i = i + 1;
        }
        proof {
            assert(rv.skip(rules@.len() as int) =~= Seq::<(Seq<char>, Seq<char>)>::empty());
            if found@.len() > 0 {
                let k = choose|k: int|
                    0 <= k < rules@.len() && (#[trigger] rules@[k]).content_type@ == (
                    #[trigger] found@[0]).content_type@ && regex_is_match(rules@[k].pattern@, line@);
                assert(regex_is_match(rules@[k].pattern@, line@));
            }
        }
        found
    }

    /// Starts on another file: names it and resets the line count.
    pub fn begin_file(&mut self, filename: String)
        ensures
            final(self)@ == (SurgeonView { filename: filename@, line_count: 0, ..old(self)@ }),
            final(self)@.compiled_as_set(),
    {
        self.line_count = 0;
        self.filename = filename;
        proof {
            use_type_invariant(&self.drop);
            use_type_invariant(&self.filter);
        }
    }

    /// The text of the report of `line` for `content_type`, laid out as a
    /// CSV row or as plain text.
    pub fn handle_message(&self, line: &str, content_type: &str) -> (r: String)
        ensures
            r@ == message_text(self@, content_type@, line@),
    {
        let n: u64 = self.line_count as u64;
        if self.is_csv {
            format_csv_row(self.hide_type, self.display, self.count, self.filename.as_str(), n, content_type, line)
        } else {
            format_text_row(self.hide_type, self.display, self.count, self.filename.as_str(), n, content_type, line)
        }
    }

    /// The header line of a CSV output file.
    pub fn create_headers(&self) -> (r: String)
        ensures
            r@ == csv_header(self@.hide_type, self@.display, self@.count),
    {
        format_csv_header(self.hide_type, self.display, self.count)
    }

    /// The error message to show for `message`: none with `--ignore`.
    pub fn print_error(&self, message: &str) -> (r: Option<String>)
        ensures
            self@.ignore ==> r is None,
            !self@.ignore ==> (r matches Some(t) && t@ == "[-] "@ + message@),
    {
        if !self.ignore {
            let mut t = "[-] ".to_owned();
            t.append(message);
            Some(t)
        } else {
            None
        }
    }

    /// Where the lines come from: the named file, else the named directory,
    /// else standard input.
    pub fn input_source(&self) -> (r: InputSource)
        ensures
            self@.filename.len() > 0 ==> r is File,
            self@.filename.len() == 0 && self@.directory.len() > 0 ==> r is Directory,
            self@.filename.len() == 0 && self@.directory.len() == 0 ==> r is Stdin,
    {
        if !self.filename.as_str().is_empty() {
            InputSource::File
        } else if !self.directory.as_str().is_empty() {
            InputSource::Directory
        } else {
            InputSource::Stdin
        }
    }

    /// The notice shown before standard input is read: none with
    /// `--suppress`.
    pub fn stdin_notice(&self) -> (r: Option<String>)
        ensures
            self@.matches.suppress ==> r is None,
            !self@.matches.suppress ==> (r matches Some(t) && t@ == stdin_notice_text()),
    {
        if !self.matches.suppress {
            Some("[*] Reading standard input. If you meant to analyze a file use 'ds -f <FILE>' (ctrl+c to exit)".to_owned())
        } else {
            None
        }
    }

    /// Whether the run reports how long it took.
    pub fn wants_time(&self) -> (r: bool)
        ensures
            r == self@.matches.time,
    {
        self.matches.time
    }

    /// The report of the time a run took, from its whole hours, whole minutes
    /// and whole seconds: hours, the minutes past the hour and the seconds
    /// past the minute, each of at least two digits.
    pub fn display_time(hours: u32, minutes: u32, seconds: u32) -> (r: String)
        ensures
            r@ == "[*] Time elapsed: "@ + two_digits(hours as nat) + "h:"@ + two_digits(
                (minutes % 60) as nat,
            ) + "m:"@ + two_digits((seconds % 60) as nat) + "s"@,
    {
        let mut r = "[*] Time elapsed: ".to_owned();
        push_two_digits(&mut r, hours as u64);
        r.append("h:");
        push_two_digits(&mut r, (minutes % 60) as u64);
        r.append("m:");
        push_two_digits(&mut r, (seconds % 60) as u64);
        r.append("s");
        r
    }

    /// The message for a named input file that could not be opened (the run
    /// then ends).
    pub fn file_open_error(&self, failure: &IoFailure) -> (r: String)
        ensures
            r@ == match failure.kind {
                IoFailureKind::NotFound => "File not found: "@ + self@.filename,
                IoFailureKind::PermissionDenied => "Permission denied for file: "@ + self@.filename,
                _ => "Error opening file: "@ + self@.filename + ". Error: "@ + failure.text@,
            },
    {
        match failure.kind {
            IoFailureKind::NotFound => {
                let mut r = "File not found: ".to_owned();
                r.append(self.filename.as_str());
                r
            },
            IoFailureKind::PermissionDenied => {
                let mut r = "Permission denied for file: ".to_owned();
                r.append(self.filename.as_str());
                r
            },
            _ => {
                let mut r = "Error opening file: ".to_owned();
                r.append(self.filename.as_str());
                r.append(". Error: ");
                r.append(failure.text.as_str());
                r
            },
        }
    }

    /// The message for a file under the directory that could not be opened
    /// (the walk goes on).
    pub fn entry_open_error(&self, path: &str, failure: &IoFailure) -> (r: String)
        ensures
            r@ == match failure.kind {
                IoFailureKind::NotFound => "File not found: "@ + path@,
                IoFailureKind::PermissionDenied => "Permission denied for file: "@ + path@,
                _ => "Error opening file "@ + path@ + ": "@ + failure.text@,
            },
    {
        match failure.kind {
            IoFailureKind::NotFound => {
                let mut r = "File not found: ".to_owned();
                r.append(path);
                r
            },
            IoFailureKind::PermissionDenied => {
                let mut r = "Permission denied for file: ".to_owned();
                r.append(path);
                r
            },
            _ => {
                let mut r = "Error opening file ".to_owned();
                r.append(path);
                r.append(": ");
                r.append(failure.text.as_str());
                r
            },
        }
    }

    /// The message for an output file that could not be opened (the run then
    /// ends). The message names the input file, not the output file.
    pub fn output_open_error(&self, failure: &IoFailure) -> (r: String)
        ensures
            r@ == match failure.kind {
                IoFailureKind::NotFound => "Failed to open output file: "@ + self@.filename,
                IoFailureKind::PermissionDenied => "Permission denied for file: "@ + self@.filename,
                _ => "Failed to open output file: "@ + self@.filename + ". Error: "@ + failure.text@,
            },
    {
        match failure.kind {
            IoFailureKind::NotFound => {
                let mut r = "Failed to open output file: ".to_owned();
                r.append(self.filename.as_str());
                r
            },
            IoFailureKind::PermissionDenied => {
                let mut r = "Permission denied for file: ".to_owned();
                r.append(self.filename.as_str());
                r
            },
            _ => {
                let mut r = "Failed to open output file: ".to_owned();
                r.append(self.filename.as_str());
                r.append(". Error: ");
                r.append(failure.text.as_str());
                r
            },
        }
    }

    /// What to do when a write to the output file failed: a denied write and
    /// a full disk end the run, any other failure is reported and the run
    /// goes on. Every such message is an error message.
    pub fn output_write_error(&self, failure: &IoFailure) -> (r: WriteFailure)
        ensures
            match failure.kind {
                IoFailureKind::PermissionDenied => r.message@
                    == "Permission denied while writing to output file: "@ + self@.filename
                    && r.fatal,
                IoFailureKind::WriteZero => r.message@
                    == "Disk is full, unable to write to output file: "@ + self@.filename
                    && r.fatal,
                _ => r.message@ == "Failed to write to output file: "@ + self@.filename
                    + " error: "@ + failure.text@ && !r.fatal,
            },
    {
        match failure.kind {
            IoFailureKind::PermissionDenied => {
                let mut m = "Permission denied while writing to output file: ".to_owned();
                m.append(self.filename.as_str());
                WriteFailure { message: m, fatal: true }
            },
            IoFailureKind::WriteZero => {
                let mut m = "Disk is full, unable to write to output file: ".to_owned();
                m.append(self.filename.as_str());
                WriteFailure { message: m, fatal: true }
            },
            _ => {
                let mut m = "Failed to write to output file: ".to_owned();
                m.append(self.filename.as_str());
                m.append(" error: ");
                m.append(failure.text.as_str());
                WriteFailure { message: m, fatal: false }
            },
        }
    }

    /// Whether results go to the output file.
    pub fn is_output(&self) -> (r: bool)
        ensures
            r == self@.is_output,
    {
        self.is_output
    }

    /// Whether the output file is a CSV file.
    pub fn is_csv(&self) -> (r: bool)
        ensures
            r == self@.is_csv,
    {
        self.is_csv
    }

    /// The output file name.
    pub fn output_file(&self) -> (r: &str)
        ensures
            r@ == self@.output_file,
    {
        self.output_file.as_str()
    }

    /// The input file name.
    pub fn filename(&self) -> (r: &str)
        ensures
            r@ == self@.filename,
    {
        self.filename.as_str()
    }

    /// The directory to walk.
    pub fn directory(&self) -> (r: &str)
        ensures
            r@ == self@.directory,
    {
        self.directory.as_str()
    }

    /// The number of lines read from the current input.
    pub fn line_count(&self) -> (r: u32)
        ensures
            r as int == self@.line_count,
    {
        self.line_count
    }
}

} // verus!
