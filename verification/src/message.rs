//! The layout of reported lines, as CSV rows or as plain text.

use vstd::prelude::*;
use vstd::string::*;
use crate::text::{decimal, push_decimal};
use crate::pattern::occurs_in;

verus! {

/// The text of one report in a CSV file: the present columns among content
/// type (unless `hide`), file (with `display`), line number (with `count`)
/// and the reported text, separated by `", "`.
pub open spec fn csv_row(
    hide: bool,
    display: bool,
    count: bool,
    file: Seq<char>,
    n: nat,
    kind: Seq<char>,
    data: Seq<char>,
) -> Seq<char> {
    let line = decimal(n);
    if hide {
        if display {
            if count {
                file + ", "@ + line + ", "@ + data
            } else {
                file + ", "@ + data
            }
        } else {
            if count {
                line + ", "@ + data
            } else {
                data
            }
        }
    } else {
        if display {
            if count {
                kind + ", "@ + file + ", "@ + line + ", "@ + data
            } else {
                kind + ", "@ + file + ", "@ + data
            }
        } else {
            if count {
                kind + ", "@ + line + ", "@ + data
            } else {
                kind + ", "@ + data
            }
        }
    }
}

/// The text of one report on screen or in a plain output file.
pub open spec fn text_row(
    hide: bool,
    display: bool,
    count: bool,
    file: Seq<char>,
    n: nat,
    kind: Seq<char>,
    data: Seq<char>,
) -> Seq<char> {
    let line = decimal(n);
    if hide {
        if display {
            if count {
                "file: "@ + file + " "@ + data + ", line: "@ + line
            } else {
                "file: "@ + file + " "@ + data
            }
        } else {
            if count {
                data + ", line: "@ + line
            } else {
                data
            }
        }
    } else {
        if display {
            if count {
                kind + ", file: "@ + file + " "@ + data + ", line: "@ + line
            } else {
                kind + ", file: "@ + file + " "@ + data
            }
        } else {
            if count {
                kind + ", "@ + data + ", line: "@ + line
            } else {
                kind + ": "@ + data
            }
        }
    }
}

/// The first line of a CSV output file: the names of the columns.
pub open spec fn csv_header(hide: bool, display: bool, count: bool) -> Seq<char> {
    if hide {
        if display {
            if count {
                "file, line, data"@
            } else {
                "file, data"@
            }
        } else {
            if count {
                "line, data"@
            } else {
                "data"@
            }
        }
    } else {
        if display {
            if count {
                "content_type, file, line, data"@
            } else {
                "content_type, file, data"@
            }
        } else {
            if count {
                "content_type, line, data"@
            } else {
                "content_type, data"@
            }
        }
    }
}

/// Builds `csv_row`.
pub fn format_csv_row(
    hide: bool,
    display: bool,
    count: bool,
    file: &str,
    n: u64,
    kind: &str,
    data: &str,
) -> (r: String)
    ensures
        r@ == csv_row(hide, display, count, file@, n as nat, kind@, data@),
{
    if hide {
        if display {
            let mut s = file.to_owned();
            s.append(", ");
            if count {
                push_decimal(&mut s, n);
                s.append(", ");
            }
            s.append(data);
            s
        } else {
            if count {
                let mut s = String::new();
                push_decimal(&mut s, n);
                assert(s@ == decimal(n as nat));
                s.append(", ");
                s.append(data);
                s
            } else {
                data.to_owned()
            }
        }
    } else {
        let mut s = kind.to_owned();
        s.append(", ");
        if display {
            s.append(file);
            s.append(", ");
        }
        if count {
            push_decimal(&mut s, n);
            s.append(", ");
        }
        s.append(data);
        s
    }
}

/// Builds `text_row`.
pub fn format_text_row(
    hide: bool,
    display: bool,
    count: bool,
    file: &str,
    n: u64,
    kind: &str,
    data: &str,
) -> (r: String)
    ensures
        r@ == text_row(hide, display, count, file@, n as nat, kind@, data@),
{
    let mut s = if hide {
        if display {
            let mut s = "file: ".to_owned();
            s.append(file);
            s.append(" ");
            s.append(data);
            s
        } else {
            data.to_owned()
        }
    } else {
        if display {
            let mut s = kind.to_owned();
            s.append(", file: ");
            s.append(file);
            s.append(" ");
            s.append(data);
            s
        } else if count {
            let mut s = kind.to_owned();
            s.append(", ");
            s.append(data);
            s
        } else {
            let mut s = kind.to_owned();
            s.append(": ");
            s.append(data);
            s
        }
    };
    if count {
        s.append(", line: ");
        push_decimal(&mut s, n);
    }
    s
}

/// Builds `csv_header`.
pub fn format_csv_header(hide: bool, display: bool, count: bool) -> (r: String)
    ensures
        r@ == csv_header(hide, display, count),
{
    let text = if hide {
        if display {
            if count {
                "file, line, data"
            } else {
                "file, data"
            }
        } else {
            if count {
                "line, data"
            } else {
                "data"
            }
        }
    } else {
        if display {
            if count {
                "content_type, file, line, data"
            } else {
                "content_type, file, data"
            }
        } else {
            if count {
                "content_type, line, data"
            } else {
                "content_type, data"
            }
        }
    };
    text.to_owned()
}

/// A column of a CSV output file.
pub enum Column {
    ContentType,
    File,
    Line,
    Data,
}

/// The columns of a CSV output file, in order.
pub open spec fn csv_columns(hide: bool, display: bool, count: bool) -> Seq<Column> {
    (if hide {
        seq![]
    } else {
        seq![Column::ContentType]
    }) + (if display {
        seq![Column::File]
    } else {
        seq![]
    }) + (if count {
        seq![Column::Line]
    } else {
        seq![]
    }) + seq![Column::Data]
}

/// The name of a column in the header.
pub open spec fn column_name(c: Column) -> Seq<char> {
    match c {
        Column::ContentType => "content_type"@,
        Column::File => "file"@,
        Column::Line => "line"@,
        Column::Data => "data"@,
    }
}

/// The value of a column in the row of one report.
pub open spec fn column_value(c: Column, file: Seq<char>, n: nat, kind: Seq<char>, data: Seq<char>) -> Seq<char> {
    match c {
        Column::ContentType => kind,
        Column::File => file,
        Column::Line => decimal(n),
        Column::Data => data,
    }
}

/// The parts separated by `", "`.
pub open spec fn comma_join(parts: Seq<Seq<char>>) -> Seq<char>
    decreases parts.len(),
{
    if parts.len() == 0 {
        seq![]
    } else if parts.len() == 1 {
        parts[0]
    } else {
        comma_join(parts.drop_last()) + ", "@ + parts.last()
    }
}

proof fn lemma_join(a: Seq<char>, b: Seq<char>, c: Seq<char>, d: Seq<char>)
    ensures
        comma_join(seq![a]) == a,
        comma_join(seq![a, b]) == a + ", "@ + b,
        comma_join(seq![a, b, c]) == a + ", "@ + b + ", "@ + c,
        comma_join(seq![a, b, c, d]) == a + ", "@ + b + ", "@ + c + ", "@ + d,
{
    assert(comma_join(seq![a]) == a);
    assert(seq![a, b].drop_last() =~= seq![a]);
    assert(seq![a, b].last() == b);
    assert(comma_join(seq![a, b]) == a + ", "@ + b);
    assert(seq![a, b, c].drop_last() =~= seq![a, b]);
    assert(seq![a, b, c].last() == c);
    assert(comma_join(seq![a, b, c]) == a + ", "@ + b + ", "@ + c);
    assert(seq![a, b, c, d].drop_last() =~= seq![a, b, c]);
    assert(seq![a, b, c, d].last() == d);
}

/// Each row of a CSV output file holds the columns that its header names, in
/// the same order: the header is the join of the column names, and the row
/// of a report is the join of the same columns' values.
pub proof fn law_csv_rows_follow_header(
    hide: bool,
    display: bool,
    count: bool,
    file: Seq<char>,
    n: nat,
    kind: Seq<char>,
    data: Seq<char>,
)
    ensures
        csv_header(hide, display, count) == comma_join(
            csv_columns(hide, display, count).map_values(|c: Column| column_name(c)),
        ),
        csv_row(hide, display, count, file, n, kind, data) == comma_join(
            csv_columns(hide, display, count).map_values(
                |c: Column| column_value(c, file, n, kind, data),
            ),
        ),
{
    reveal_strlit("content_type");
    reveal_strlit("file");
    reveal_strlit("line");
    reveal_strlit("data");
    reveal_strlit(", ");
    reveal_strlit("file, line, data");
    reveal_strlit("file, data");
    reveal_strlit("line, data");
    reveal_strlit("content_type, file, line, data");
    reveal_strlit("content_type, file, data");
    reveal_strlit("content_type, line, data");
    reveal_strlit("content_type, data");
    let cols = csv_columns(hide, display, count);
    let names = cols.map_values(|c: Column| column_name(c));
    let values = cols.map_values(|c: Column| column_value(c, file, n, kind, data));
    let ct = Column::ContentType;
    let fi = Column::File;
    let li = Column::Line;
    let da = Column::Data;
    let line = decimal(n);
    if hide {
        if display {
            if count {
                assert(cols =~= seq![fi, li, da]);
                assert(names =~= seq!["file"@, "line"@, "data"@]);
                assert(values =~= seq![file, line, data]);
                lemma_join("file"@, "line"@, "data"@, seq![]);
                lemma_join(file, line, data, seq![]);
                assert(csv_header(hide, display, count) =~= "file"@ + ", "@ + "line"@ + ", "@ + "data"@);
            } else {
                assert(cols =~= seq![fi, da]);
                assert(names =~= seq!["file"@, "data"@]);
                assert(values =~= seq![file, data]);
                lemma_join("file"@, "data"@, seq![], seq![]);
                lemma_join(file, data, seq![], seq![]);
                assert(csv_header(hide, display, count) =~= "file"@ + ", "@ + "data"@);
            }
        } else {
            if count {
                assert(cols =~= seq![li, da]);
                assert(names =~= seq!["line"@, "data"@]);
                assert(values =~= seq![line, data]);
                lemma_join("line"@, "data"@, seq![], seq![]);
                lemma_join(line, data, seq![], seq![]);
                assert(csv_header(hide, display, count) =~= "line"@ + ", "@ + "data"@);
            } else {
                assert(cols =~= seq![da]);
                assert(names =~= seq!["data"@]);
                assert(values =~= seq![data]);
                lemma_join("data"@, seq![], seq![], seq![]);
                lemma_join(data, seq![], seq![], seq![]);
            }
        }
    } else {
        if display {
            if count {
                assert(cols =~= seq![ct, fi, li, da]);
                assert(names =~= seq!["content_type"@, "file"@, "line"@, "data"@]);
                assert(values =~= seq![kind, file, line, data]);
                lemma_join("content_type"@, "file"@, "line"@, "data"@);
                lemma_join(kind, file, line, data);
                assert(csv_header(hide, display, count) =~= "content_type"@ + ", "@ + "file"@ + ", "@
                    + "line"@ + ", "@ + "data"@);
            } else {
                assert(cols =~= seq![ct, fi, da]);
                assert(names =~= seq!["content_type"@, "file"@, "data"@]);
                assert(values =~= seq![kind, file, data]);
                lemma_join("content_type"@, "file"@, "data"@, seq![]);
                lemma_join(kind, file, data, seq![]);
                assert(csv_header(hide, display, count) =~= "content_type"@ + ", "@ + "file"@ + ", "@
                    + "data"@);
            }
        } else {
            if count {
                assert(cols =~= seq![ct, li, da]);
                assert(names =~= seq!["content_type"@, "line"@, "data"@]);
                assert(values =~= seq![kind, line, data]);
                lemma_join("content_type"@, "line"@, "data"@, seq![]);
                lemma_join(kind, line, data, seq![]);
                assert(csv_header(hide, display, count) =~= "content_type"@ + ", "@ + "line"@ + ", "@
                    + "data"@);
            } else {
                assert(cols =~= seq![ct, da]);
                assert(names =~= seq!["content_type"@, "data"@]);
                assert(values =~= seq![kind, data]);
                lemma_join("content_type"@, "data"@, seq![], seq![]);
                lemma_join(kind, data, seq![], seq![]);
                assert(csv_header(hide, display, count) =~= "content_type"@ + ", "@ + "data"@);
            }
        }
    }
}

/// `part` begins `whole`.
pub open spec fn starts_with(whole: Seq<char>, part: Seq<char>) -> bool {
    part.len() <= whole.len() && whole.subrange(0, part.len() as int) == part
}

/// `part` ends `whole`.
pub open spec fn ends_with(whole: Seq<char>, part: Seq<char>) -> bool {
    part.len() <= whole.len() && whole.subrange(whole.len() - part.len(), whole.len() as int) == part
}

proof fn lemma_occurs_middle(a: Seq<char>, b: Seq<char>, c: Seq<char>)
    ensures
        occurs_in(b, a + b + c),
{
    assert((a + b + c).subrange(a.len() as int, a.len() as int + b.len()) =~= b);
}

proof fn lemma_starts_ends(a: Seq<char>, b: Seq<char>)
    ensures
        starts_with(a + b, a),
        ends_with(a + b, b),
{
    assert((a + b).subrange(0, a.len() as int) =~= a);
    assert((a + b).subrange((a + b).len() - b.len(), (a + b).len() as int) =~= b);
}

/// What a plain-text report holds: the file name (after `file: `) when
/// `display` is set; the content type at its start unless `hide` is set; the
/// reported text; and, at its end, `, line: ` and the line number when
/// `count` is set, else the reported text.
pub proof fn law_text_row_fields(
    hide: bool,
    display: bool,
    count: bool,
    file: Seq<char>,
    n: nat,
    kind: Seq<char>,
    data: Seq<char>,
)
    ensures
        display ==> occurs_in("file: "@ + file, text_row(hide, display, count, file, n, kind, data)),
        !hide ==> starts_with(text_row(hide, display, count, file, n, kind, data), kind),
        occurs_in(data, text_row(hide, display, count, file, n, kind, data)),
        count ==> ends_with(
            text_row(hide, display, count, file, n, kind, data),
            ", line: "@ + decimal(n),
        ),
        !count ==> ends_with(text_row(hide, display, count, file, n, kind, data), data),
{
    reveal_strlit(", file: ");
    reveal_strlit("file: ");
    reveal_strlit(", ");
    let row = text_row(hide, display, count, file, n, kind, data);
    let line = decimal(n);
    if hide && display && count {
        assert(row == "file: "@ + file + " "@ + data + ", line: "@ + line);
        assert(row =~= (Seq::<char>::empty()) + ("file: "@ + file) + (" "@ + data + ", line: "@ + line));
        lemma_occurs_middle(Seq::<char>::empty(), "file: "@ + file, " "@ + data + ", line: "@ + line);
        assert(row =~= ("file: "@ + file + " "@) + data + (", line: "@ + line));
        lemma_occurs_middle("file: "@ + file + " "@, data, ", line: "@ + line);
        assert(row =~= ("file: "@ + file + " "@ + data) + (", line: "@ + line));
        lemma_starts_ends("file: "@ + file + " "@ + data, ", line: "@ + line);
    } else if hide && display && !count {
        assert(row == "file: "@ + file + " "@ + data);
        assert(row =~= (Seq::<char>::empty()) + ("file: "@ + file) + (" "@ + data));
        lemma_occurs_middle(Seq::<char>::empty(), "file: "@ + file, " "@ + data);
        assert(row =~= ("file: "@ + file + " "@) + data + (Seq::<char>::empty()));
        lemma_occurs_middle("file: "@ + file + " "@, data, Seq::<char>::empty());
        assert(row =~= ("file: "@ + file + " "@) + data);
        lemma_starts_ends("file: "@ + file + " "@, data);
    } else if hide && !display && count {
        assert(row == data + ", line: "@ + line);
        assert(row =~= (Seq::<char>::empty()) + data + (", line: "@ + line));
        lemma_occurs_middle(Seq::<char>::empty(), data, ", line: "@ + line);
        assert(row =~= (data) + (", line: "@ + line));
        lemma_starts_ends(data, ", line: "@ + line);
    } else if hide && !display && !count {
        assert(row == data);
        assert(row =~= (Seq::<char>::empty()) + data + (Seq::<char>::empty()));
        lemma_occurs_middle(Seq::<char>::empty(), data, Seq::<char>::empty());
        assert(row =~= (Seq::<char>::empty()) + data);
        lemma_starts_ends(Seq::<char>::empty(), data);
    } else if !hide && display && count {
        assert(row == kind + ", file: "@ + file + " "@ + data + ", line: "@ + line);
        assert(row =~= (kind + ", "@) + ("file: "@ + file) + (" "@ + data + ", line: "@ + line));
        lemma_occurs_middle(kind + ", "@, "file: "@ + file, " "@ + data + ", line: "@ + line);
        assert(row =~= (kind + ", file: "@ + file + " "@) + data + (", line: "@ + line));
        lemma_occurs_middle(kind + ", file: "@ + file + " "@, data, ", line: "@ + line);
        assert(row =~= kind + (", file: "@ + file + " "@ + data + ", line: "@ + line));
        lemma_starts_ends(kind, ", file: "@ + file + " "@ + data + ", line: "@ + line);
        assert(row =~= (kind + ", file: "@ + file + " "@ + data) + (", line: "@ + line));
        lemma_starts_ends(kind + ", file: "@ + file + " "@ + data, ", line: "@ + line);
    } else if !hide && display && !count {
        assert(row == kind + ", file: "@ + file + " "@ + data);
        assert(row =~= (kind + ", "@) + ("file: "@ + file) + (" "@ + data));
        lemma_occurs_middle(kind + ", "@, "file: "@ + file, " "@ + data);
        assert(row =~= (kind + ", file: "@ + file + " "@) + data + (Seq::<char>::empty()));
        lemma_occurs_middle(kind + ", file: "@ + file + " "@, data, Seq::<char>::empty());
        assert(row =~= kind + (", file: "@ + file + " "@ + data));
        lemma_starts_ends(kind, ", file: "@ + file + " "@ + data);
        assert(row =~= (kind + ", file: "@ + file + " "@) + data);
        lemma_starts_ends(kind + ", file: "@ + file + " "@, data);
    } else if !hide && !display && count {
        assert(row == kind + ", "@ + data + ", line: "@ + line);
        assert(row =~= (kind + ", "@) + data + (", line: "@ + line));
        lemma_occurs_middle(kind + ", "@, data, ", line: "@ + line);
        assert(row =~= kind + (", "@ + data + ", line: "@ + line));
        lemma_starts_ends(kind, ", "@ + data + ", line: "@ + line);
        assert(row =~= (kind + ", "@ + data) + (", line: "@ + line));
        lemma_starts_ends(kind + ", "@ + data, ", line: "@ + line);
    } else if !hide && !display && !count {
        assert(row == kind + ": "@ + data);
        assert(row =~= (kind + ": "@) + data + (Seq::<char>::empty()));
        lemma_occurs_middle(kind + ": "@, data, Seq::<char>::empty());
        assert(row =~= kind + (": "@ + data));
        lemma_starts_ends(kind, ": "@ + data);
        assert(row =~= (kind + ": "@) + data);
        lemma_starts_ends(kind + ": "@, data);
    }
}

} // verus!
