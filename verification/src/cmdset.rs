use vstd::prelude::*;

use crate::error::CoreError;
use crate::parser::{parser_spec_from, parser_spec_text, parser_spec_view, ParserSpec, ParserSpecView};
use crate::profile::{normalized_id_ok, normalized_record_id};
use crate::text::{concat2, owned, str_eq};

verus! {

/// A stored command set; `vars` holds its variables as JSON text.
#[derive(Debug, Clone)]
pub struct CmdSet {
    pub cmdset_id: String,
    pub name: String,
    pub vars: Option<String>,
}

/// What a command set does when one of its steps fails.
#[derive(Debug, Clone, Copy, PartialEq, Eq, Structural)]
pub enum StepOnError {
    Stop,
    Continue,
}

/// The stored name of a failure policy.
pub open spec fn on_error_name(o: StepOnError) -> Seq<char> {
    match o {
        StepOnError::Stop => "stop"@,
        StepOnError::Continue => "continue"@,
    }
}

/// The failure policy stored as `s`.
pub open spec fn on_error_from(s: Seq<char>) -> Option<StepOnError> {
    if s == "stop"@ {
        Some(StepOnError::Stop)
    } else if s == "continue"@ {
        Some(StepOnError::Continue)
    } else {
        None
    }
}

impl StepOnError {
    /// The stored name.
    pub fn as_str(&self) -> (r: &'static str)
        ensures
            r@ == on_error_name(*self),
    {
        match self {
            StepOnError::Stop => "stop",
            StepOnError::Continue => "continue",
        }
    }

    /// Reads a stored failure policy.
    pub fn parse(value: &str) -> (r: Result<StepOnError, CoreError>)
        ensures
            match on_error_from(value@) {
                Some(o) => r == Ok::<StepOnError, CoreError>(o),
                None => r matches Err(CoreError::InvalidCommandSpec(m)) && m@ == "unknown on_error: "@
                    + value@,
            },
    {
        if str_eq(value, "stop") {
            Ok(StepOnError::Stop)
        } else if str_eq(value, "continue") {
            Ok(StepOnError::Continue)
        } else {
            Err(CoreError::InvalidCommandSpec(concat2("unknown on_error: ", value)))
        }
    }
}

/// Law: a failure policy is read back from its stored name.
pub proof fn lemma_on_error_round_trip(o: StepOnError)
    ensures
        on_error_from(on_error_name(o)) == Some(o),
{
    reveal_strlit("stop");
    reveal_strlit("continue");
    assert("continue"@ != "stop"@) by {
        assert("continue"@.len() != "stop"@.len());
    }
}

/// A stored step of a command set.
#[derive(Debug, Clone)]
pub struct CmdStep {
    pub id: i64,
    pub cmdset_id: String,
    pub ord: i64,
    pub cmd: String,
    pub timeout_ms: Option<u64>,
    pub on_error: StepOnError,
    pub parser_spec: ParserSpec,
}

/// A command set to be stored.
#[derive(Debug, Clone)]
pub struct NewCmdSet {
    pub cmdset_id: Option<String>,
    pub name: String,
    pub vars: Option<String>,
    pub steps: Vec<NewCmdStep>,
}

impl NewCmdSet {
    /// The id the set will be stored under: the explicit id lower-cased, or a generated one
    /// starting with `c_`; either must be a valid id.
    pub fn normalize_id(&self) -> (r: Result<String, CoreError>)
        ensures
            normalized_id_ok(self.cmdset_id, "c_"@, r),
    {
        proof {
            reveal_strlit("c_");
        }
        normalized_record_id(&self.cmdset_id, "c_")
    }

    /// The id a new set is stored under, or why it is refused: a set needs at least one step.
    pub fn checked_id(&self) -> (r: Result<String, CoreError>)
        ensures
            self.steps@.len() == 0 ==> (r matches Err(CoreError::InvalidCommandSpec(m)) && m@
                == "cmdset must include at least one step"@),
            self.steps@.len() > 0 ==> normalized_id_ok(self.cmdset_id, "c_"@, r),
    {
        if self.steps.len() == 0 {
            return Err(CoreError::InvalidCommandSpec(owned("cmdset must include at least one step")));
        }
        self.normalize_id()
    }
}

/// A step of a command set to be stored.
#[derive(Debug, Clone)]
pub struct NewCmdStep {
    pub cmd: String,
    pub timeout_ms: Option<u64>,
    pub on_error: StepOnError,
    pub parser_spec: ParserSpec,
}

/// A step as it is written to the store.
#[derive(Debug, Clone)]
pub struct StepRow {
    pub ord: i64,
    pub cmd: String,
    pub timeout_ms: Option<i64>,
    pub on_error: String,
    pub parser_spec: String,
}

/// The rows of a set's steps: numbered from 1 in order, each with its policy and parser spec in
/// stored form.
pub fn step_rows(steps: &Vec<NewCmdStep>) -> (r: Vec<StepRow>)
    requires
        steps@.len() < 0x7fff_ffff_ffff_ffff,
    ensures
        r@.len() == steps@.len(),
        forall|i: int|
            0 <= i < r@.len() ==> {
                let row = #[trigger] r@[i];
                let step = steps@[i];
                &&& row.ord == i + 1
                &&& row.cmd@ == step.cmd@
                &&& row.timeout_ms == match step.timeout_ms {
                    Some(t) => Some(t as i64),
                    None => None::<i64>,
                }
                &&& row.on_error@ == on_error_name(step.on_error)
                &&& row.parser_spec@ == parser_spec_text(parser_spec_view(step.parser_spec))
            },
{
    let mut r: Vec<StepRow> = Vec::new();
    let mut i: usize = 0;
    while i < steps.len()
        invariant
            i <= steps.len(),
            steps@.len() < 0x7fff_ffff_ffff_ffff,
            r@.len() == i,
            forall|k: int|
                0 <= k < i ==> {
                    let row = #[trigger] r@[k];
                    let step = steps@[k];
                    &&& row.ord == k + 1
                    &&& row.cmd@ == step.cmd@
                    &&& row.timeout_ms == match step.timeout_ms {
                        Some(t) => Some(t as i64),
                        None => None::<i64>,
                    }
                    &&& row.on_error@ == on_error_name(step.on_error)
                    &&& row.parser_spec@ == parser_spec_text(parser_spec_view(step.parser_spec))
                },
        decreases steps.len() - i,
    {
        let step = &steps[i];
        let timeout_ms = match step.timeout_ms {
            Some(t) => Some(t as i64),
            None => None,
        };
        let ord = (i + 1) as i64;
        r.push(
            StepRow {
                ord,
                cmd: step.cmd.clone(),
                timeout_ms,
                on_error: owned(step.on_error.as_str()),
                parser_spec: step.parser_spec.to_text(),
            },
        );
        i = i + 1;
    }
    r
}

/// Reads a stored step back.
pub fn cmdstep_from_row(
    id: i64,
    cmdset_id: String,
    ord: i64,
    cmd: String,
    timeout_ms: Option<i64>,
    on_error: &str,
    parser_spec: &str,
) -> (r: Result<CmdStep, CoreError>)
    ensures
        match on_error_from(on_error@) {
            None => r matches Err(CoreError::InvalidCommandSpec(m)) && m@ == "unknown on_error: "@
                + on_error@,
            Some(o) => match parser_spec_from(parser_spec@) {
                Err(e) => r matches Err(CoreError::InvalidCommandSpec(m)) && m@ == e,
                Ok(p) => r matches Ok(step) && step.id == id && step.cmdset_id@ == cmdset_id@
                    && step.ord == ord && step.cmd@ == cmd@ && step.timeout_ms == match timeout_ms {
                    Some(t) => Some(t as u64),
                    None => None::<u64>,
                } && step.on_error == o && parser_spec_view(step.parser_spec) == p,
            },
        },
{
    let on_error = StepOnError::parse(on_error)?;
    let parser_spec = ParserSpec::parse(parser_spec)?;
    let timeout_ms = match timeout_ms {
        Some(t) => Some(t as u64),
        None => None,
    };
    Ok(CmdStep { id, cmdset_id, ord, cmd, timeout_ms, on_error, parser_spec })
}

/// Law: a stored step reads back as the step that was stored: its failure policy, its parser
/// spec (a regex spec needs a parser id) and its timeout.
pub proof fn lemma_stored_step_reads_back(on_error: StepOnError, spec: ParserSpecView, timeout: u64)
    requires
        spec matches ParserSpecView::Regex(id) ==> id.len() > 0,
    ensures
        on_error_from(on_error_name(on_error)) == Some(on_error),
        parser_spec_from(parser_spec_text(spec)) == Ok::<ParserSpecView, Seq<char>>(spec),
        ((timeout as i64) as u64) == timeout,
{
    lemma_on_error_round_trip(on_error);
    crate::parser::lemma_parser_spec_round_trip(spec);
    assert(((timeout as i64) as u64) == timeout) by (bit_vector);
}

} // verus!
