use vstd::prelude::*;

use crate::error::CoreError;
use crate::settings_registry::{json_compact, json_compact_text};
use crate::text::{
    chars_of, concat2, decimal, owned, slice_chars, starts_with_chars, str_eq, string_from_chars,
    u64_to_string,
};

verus! {

/// How the output of a command step is read.
#[derive(Debug, Clone, PartialEq, Eq)]
pub enum ParserSpec {
    Raw,
    Json,
    Regex(String),
}

/// A parser spec as plain values.
pub enum ParserSpecView {
    Raw,
    Json,
    Regex(Seq<char>),
}

/// The view of a parser spec.
pub open spec fn parser_spec_view(p: ParserSpec) -> ParserSpecView {
    match p {
        ParserSpec::Raw => ParserSpecView::Raw,
        ParserSpec::Json => ParserSpecView::Json,
        ParserSpec::Regex(id) => ParserSpecView::Regex(id@),
    }
}

/// What a stored parser spec reads as: `raw`, `json` or `regex:<parser id>`.
pub open spec fn parser_spec_from(value: Seq<char>) -> Result<ParserSpecView, Seq<char>> {
    if value == "raw"@ {
        Ok(ParserSpecView::Raw)
    } else if value == "json"@ {
        Ok(ParserSpecView::Json)
    } else if value.len() >= 6 && value.take(6) == "regex:"@ {
        if value.len() == 6 {
            Err("regex parser spec missing id"@)
        } else {
            Ok(ParserSpecView::Regex(value.skip(6)))
        }
    } else {
        Err("unknown parser spec: "@ + value)
    }
}

/// The stored text of a parser spec.
pub open spec fn parser_spec_text(p: ParserSpecView) -> Seq<char> {
    match p {
        ParserSpecView::Raw => "raw"@,
        ParserSpecView::Json => "json"@,
        ParserSpecView::Regex(id) => "regex:"@ + id,
    }
}

impl ParserSpec {
    /// Reads a stored parser spec.
    pub fn parse(value: &str) -> (r: Result<ParserSpec, CoreError>)
        ensures
            match parser_spec_from(value@) {
                Ok(p) => r matches Ok(x) && parser_spec_view(x) == p,
                Err(m) => r matches Err(CoreError::InvalidCommandSpec(e)) && e@ == m,
            },
    {
        proof {
            reveal_strlit("regex:");
        }
        if str_eq(value, "raw") {
            return Ok(ParserSpec::Raw);
        }
        if str_eq(value, "json") {
            return Ok(ParserSpec::Json);
        }
        let v = chars_of(value);
        if starts_with_chars(&v, "regex:") {
            if v.len() == 6 {
                return Err(CoreError::InvalidCommandSpec(owned("regex parser spec missing id")));
            }
            let rest = slice_chars(&v, 6, v.len());
            assert(rest@ =~= value@.skip(6));
            Ok(ParserSpec::Regex(string_from_chars(&rest)))
        } else {
            Err(CoreError::InvalidCommandSpec(concat2("unknown parser spec: ", value)))
        }
    }

    /// The stored text (`Display`).
    pub fn to_text(&self) -> (r: String)
        ensures
            r@ == parser_spec_text(parser_spec_view(*self)),
    {
        match self {
            ParserSpec::Raw => owned("raw"),
            ParserSpec::Json => owned("json"),
            ParserSpec::Regex(id) => concat2("regex:", id.as_str()),
        }
    }
}

/// Law: a parser spec is read back from its stored text (a regex spec needs a parser id).
pub proof fn lemma_parser_spec_round_trip(p: ParserSpecView)
    requires
        p matches ParserSpecView::Regex(id) ==> id.len() > 0,
    ensures
        parser_spec_from(parser_spec_text(p)) == Ok::<ParserSpecView, Seq<char>>(p),
{
    reveal_strlit("raw");
    reveal_strlit("json");
    reveal_strlit("regex:");
    match p {
        ParserSpecView::Raw => {},
        ParserSpecView::Json => {
            assert("json"@ != "raw"@) by {
                assert("json"@.len() != "raw"@.len());
            }
        },
        ParserSpecView::Regex(id) => {
            let t = "regex:"@ + id;
            assert(t != "raw"@) by {
                assert(t.len() != "raw"@.len());
            }
            assert(t != "json"@) by {
                assert(t.len() != "json"@.len());
            }
            assert(t.take(6) =~= "regex:"@);
            assert(t.skip(6) =~= id);
        },
    }
}

/// The kind of a stored parser.
#[derive(Debug, Clone, Copy, PartialEq, Eq, Structural)]
pub enum ParserType {
    Regex,
}

impl ParserType {
    /// Reads a stored parser type.
    pub fn parse(value: &str) -> (r: Result<ParserType, CoreError>)
        ensures
            value@ == "regex"@ ==> r == Ok::<ParserType, CoreError>(ParserType::Regex),
            value@ != "regex"@ ==> (r matches Err(CoreError::InvalidCommandSpec(m)) && m@
                == "unknown parser type: "@ + value@),
    {
        if str_eq(value, "regex") {
            Ok(ParserType::Regex)
        } else {
            Err(CoreError::InvalidCommandSpec(concat2("unknown parser type: ", value)))
        }
    }
}

/// A stored parser.
#[derive(Debug, Clone)]
pub struct ParserDefinition {
    pub parser_id: String,
    pub parser_type: ParserType,
    pub definition: String,
}

/// What `regex::Regex::new(pattern)` and then `captures_iter(text)` give: the names of the
/// capture groups (group 0 first), and for each match the text of every group that took part;
/// or the text of the compile error.
pub uninterp spec fn regex_capture_table(pattern: Seq<char>, text: Seq<char>) -> Result<
    (Seq<Option<Seq<char>>>, Seq<Seq<Option<Seq<char>>>>),
    Seq<char>,
>;

/// The view of optional strings.
pub open spec fn opt_strings_view(v: Seq<Option<String>>) -> Seq<Option<Seq<char>>> {
    v.map_values(
        |o: Option<String>|
            match o {
                Some(s) => Some(s@),
                None => None,
            },
    )
}

/// The view of the groups of every match.
pub open spec fn rows_view(v: Seq<Vec<Option<String>>>) -> Seq<Seq<Option<Seq<char>>>> {
    v.map_values(|row: Vec<Option<String>>| opt_strings_view(row@))
}

/// Compiles `pattern` with `regex::Regex::new` and collects, with `capture_names` and
/// `captures_iter`, the group names and each match's groups (`Captures::iter`); a compile error
/// becomes its display text.
#[verifier::external_body]
fn regex_captures(pattern: &str, text: &str) -> (r: Result<
    (Vec<Option<String>>, Vec<Vec<Option<String>>>),
    String,
>)
    ensures
        match r {
            Ok((names, rows)) => regex_capture_table(pattern@, text@) == Ok::<
                (Seq<Option<Seq<char>>>, Seq<Seq<Option<Seq<char>>>>),
                Seq<char>,
            >((opt_strings_view(names@), rows_view(rows@))),
            Err(e) => regex_capture_table(pattern@, text@) == Err::<
                (Seq<Option<Seq<char>>>, Seq<Seq<Option<Seq<char>>>>),
                Seq<char>,
            >(e@),
        },
{
    let re = match regex::Regex::new(pattern) {
        Ok(re) => re,
        Err(err) => return Err(err.to_string()),
    };
    let names: Vec<Option<String>> = re.capture_names().map(|n| n.map(|s| s.to_string())).collect();
    let mut rows = Vec::new();
    for caps in re.captures_iter(text) {
        rows.push(caps.iter().map(|m| m.map(|m| m.as_str().to_string())).collect());
    }
    Ok((names, rows))
}

/// What parsing a step's output gives: an empty object, the JSON value (as its compact text), or
/// one entry list per regex match.
#[derive(Debug, Clone, PartialEq, Eq)]
pub enum ParsedOutput {
    Empty,
    Json(String),
    Matches(Vec<Vec<(String, String)>>),
}

/// The key of a capture group: its name, or its index.
pub open spec fn group_key(name: Option<Seq<char>>, i: int) -> Seq<char> {
    match name {
        Some(n) => n,
        None => decimal(i as nat),
    }
}

/// The entries of one match for the groups `1..k`: each group that took part, under its key.
pub open spec fn row_entries(
    names: Seq<Option<Seq<char>>>,
    row: Seq<Option<Seq<char>>>,
    k: int,
) -> Seq<(Seq<char>, Seq<char>)>
    decreases k,
{
    if k <= 1 {
        seq![]
    } else {
        let i = k - 1;
        row_entries(names, row, k - 1) + if i < row.len() && row[i] is Some {
            seq![(group_key(names[i], i), row[i]->0)]
        } else {
            seq![]
        }
    }
}

/// The entry lists of all matches.
pub open spec fn match_entries(
    names: Seq<Option<Seq<char>>>,
    rows: Seq<Seq<Option<Seq<char>>>>,
) -> Seq<Seq<(Seq<char>, Seq<char>)>> {
    rows.map_values(|row: Seq<Option<Seq<char>>>| row_entries(names, row, names.len() as int))
}

/// The view of entry lists.
pub open spec fn entries_view(v: Seq<Vec<(String, String)>>) -> Seq<Seq<(Seq<char>, Seq<char>)>> {
    v.map_values(
        |e: Vec<(String, String)>| e@.map_values(|p: (String, String)| (p.0@, p.1@)),
    )
}

fn entries_of_row(names: &Vec<Option<String>>, row: &Vec<Option<String>>) -> (r: Vec<(String, String)>)
    ensures
        r@.map_values(|p: (String, String)| (p.0@, p.1@)) == row_entries(
            opt_strings_view(names@),
            opt_strings_view(row@),
            names.len() as int,
        ),
{
    let ghost nv = opt_strings_view(names@);
    let ghost rv = opt_strings_view(row@);
    let mut r: Vec<(String, String)> = Vec::new();
    let mut i: usize = 1;
    if names.len() == 0 {
        return r;
    }
    while i < names.len()
        invariant
            1 <= i <= names.len(),
            nv == opt_strings_view(names@),
            rv == opt_strings_view(row@),
            r@.map_values(|p: (String, String)| (p.0@, p.1@)) == row_entries(nv, rv, i as int),
        decreases names.len() - i,
    {
        let ghost before = r@;
        if i < row.len() {
            match &row[i] {
                Some(value) => {
                    let key = match &names[i] {
                        Some(n) => n.clone(),
                        None => u64_to_string(i as u64),
                    };
                    r.push((key, value.clone()));
                    assert(r@.drop_last() =~= before);
                },
                None => {},
            }
        }
        assert(r@.map_values(|p: (String, String)| (p.0@, p.1@)) =~= row_entries(
            nv,
            rv,
            i + 1,
        ));
        i = i + 1;
    }
    r
}

/// Reads a step's output with a regex: one entry list per match.
pub fn parse_regex_output(pattern: &str, stdout: &str) -> (r: Result<ParsedOutput, CoreError>)
    ensures
        match regex_capture_table(pattern@, stdout@) {
            Ok((names, rows)) => r matches Ok(ParsedOutput::Matches(m)) && entries_view(m@)
                == match_entries(names, rows),
            Err(e) => r matches Err(CoreError::Regex(m)) && m@ == e,
        },
{
    match regex_captures(pattern, stdout) {
        Err(e) => Err(CoreError::Regex(e)),
        Ok((names, rows)) => {
            let ghost nv = opt_strings_view(names@);
            let mut out: Vec<Vec<(String, String)>> = Vec::new();
            let mut j: usize = 0;
            while j < rows.len()
                invariant
                    j <= rows.len(),
                    nv == opt_strings_view(names@),
                    entries_view(out@) == match_entries(nv, rows_view(rows@)).take(j as int),
                decreases rows.len() - j,
            {
                let entries = entries_of_row(&names, &rows[j]);
                let ghost before = out@;
                out.push(entries);
                assert(entries_view(out@) =~= entries_view(before).push(
                    entries@.map_values(|p: (String, String)| (p.0@, p.1@)),
                ));
                j = j + 1;
                assert(entries_view(out@) =~= match_entries(nv, rows_view(rows@)).take(j as int));
            }
            assert(match_entries(nv, rows_view(rows@)).take(rows.len() as int) =~= match_entries(
                nv,
                rows_view(rows@),
            ));
            Ok(ParsedOutput::Matches(out))
        },
    }
}

/// Whether `r` is what reading `stdout` as `spec` says gives. Raw output gives an empty
/// object; JSON output gives its value, or an empty object when it is not JSON; a regex spec
/// needs the parser of that id.
pub open spec fn parsed_as(
    spec: ParserSpec,
    stdout: Seq<char>,
    parser: Option<&ParserDefinition>,
    r: Result<ParsedOutput, CoreError>,
) -> bool {
    match spec {
        ParserSpec::Raw => r == Ok::<ParsedOutput, CoreError>(ParsedOutput::Empty),
        ParserSpec::Json => match json_compact_text(stdout) {
            Ok(t) => r matches Ok(ParsedOutput::Json(x)) && x@ == t,
            Err(_) => r == Ok::<ParsedOutput, CoreError>(ParsedOutput::Empty),
        },
        ParserSpec::Regex(id) => match parser {
            Some(p) => if p.parser_id@ == id@ {
                match regex_capture_table(p.definition@, stdout) {
                    Ok((names, rows)) => r matches Ok(ParsedOutput::Matches(m))
                        && entries_view(m@) == match_entries(names, rows),
                    Err(e) => r matches Err(CoreError::Regex(m)) && m@ == e,
                }
            } else {
                r matches Err(CoreError::ParserNotFound(m)) && m@ == id@
            },
            None => r matches Err(CoreError::ParserNotFound(m)) && m@ == id@,
        },
    }
}

/// Reads a step's output as its parser spec says (see `parsed_as`).
pub fn parse_output(spec: &ParserSpec, stdout: &str, parser: Option<&ParserDefinition>) -> (r:
    Result<ParsedOutput, CoreError>)
    ensures
        parsed_as(*spec, stdout@, parser, r),
{
    match spec {
        ParserSpec::Raw => Ok(ParsedOutput::Empty),
        ParserSpec::Json => match json_compact(stdout) {
            Ok(text) => Ok(ParsedOutput::Json(text)),
            Err(_) => Ok(ParsedOutput::Empty),
        },
        ParserSpec::Regex(parser_id) => {
            let definition = match parser {
                Some(p) => {
                    if !str_eq(p.parser_id.as_str(), parser_id.as_str()) {
                        return Err(CoreError::ParserNotFound(parser_id.clone()));
                    }
                    p
                },
                None => {
                    return Err(CoreError::ParserNotFound(parser_id.clone()));
                },
            };
            parse_regex_output(definition.definition.as_str(), stdout)
        },
    }
}

} // verus!
