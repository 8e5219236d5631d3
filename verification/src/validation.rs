//! Collecting the errors that a device reports.

use crate::text::{decimal, push_decimal};
use vstd::prelude::*;
use vstd::string::*;

verus! {

/// The errors that a device has reported, oldest first.
#[derive(Debug)]
pub struct ValidationGuard {
    errors: Vec<String>,
}

/// One line of the report: the place of the error in the list, and the error.
pub open spec fn error_line(i: int, e: Seq<char>) -> Seq<char> {
    "  ["@ + decimal(i as nat) + "] "@ + e
}

/// The lines of the report, one per error, with a line break between two.
pub open spec fn error_lines(errors: Seq<Seq<char>>) -> Seq<char>
    decreases errors.len(),
{
    if errors.len() == 0 {
        seq![]
    } else if errors.len() == 1 {
        error_line(0, errors[0])
    } else {
        error_lines(errors.drop_last()) + "\n"@ + error_line(errors.len() - 1, errors.last())
    }
}

/// The report on a list of errors.
pub open spec fn error_report(errors: Seq<Seq<char>>) -> Seq<char> {
    "WebGPU validation errors detected:\n"@ + error_lines(errors)
}

impl View for ValidationGuard {
    type V = Seq<Seq<char>>;

    closed spec fn view(&self) -> Seq<Seq<char>> {
        self.errors@.map_values(|e: String| e@)
    }
}

impl ValidationGuard {
    /// A guard that has seen no error.
    pub fn new() -> (guard: ValidationGuard)
        ensures
            guard@ == Seq::<Seq<char>>::empty(),
    {
        let guard = ValidationGuard { errors: Vec::new() };
        assert(guard@ =~= Seq::<Seq<char>>::empty());
        guard
    }

    /// Takes note of an error.
    pub fn capture(&mut self, error: String)
        ensures
            final(self)@ == old(self)@.push(error@),
    {
        self.errors.push(error);
        assert(self@ =~= old(self)@.push(error@));
    }

    /// Whether the guard has seen no error; if it has, the report on all of
    /// them.
    pub fn assert_no_errors(&self) -> (result: Result<(), String>)
        ensures
            result is Ok <==> self@.len() == 0,
            result is Err ==> result->Err_0@ == error_report(self@),
    {
        let n: usize = self.errors.len();
        if n == 0 {
            return Ok(());
        }
        let mut report = "WebGPU validation errors detected:\n".to_owned();
        let ghost head = report@;
        for i in 0..n
            invariant
                n == self.errors@.len(),
                head == "WebGPU validation errors detected:\n"@,
                report@ == head + error_lines(self@.take(i as int)),
        {
            let ghost before = report@;
            if i > 0 {
                report.append("\n");
            }
            report.append("  [");
            push_decimal(&mut report, i as u64);
            report.append("] ");
            report.append(self.errors[i].as_str());
            proof {
                let now = self@.take(i + 1);
                assert(now.last() == self.errors@[i as int]@);
                assert(now.drop_last() =~= self@.take(i as int));
                if i == 0 {
                    assert(report@ =~= head + error_line(0, now[0]));
                } else {
                    assert(report@ =~= before + "\n"@ + error_line(i as int, now.last()));
                    assert(report@ =~= head + (error_lines(now.drop_last()) + "\n"@ + error_line(
                        i as int,
                        now.last(),
                    )));
                }
            }
        }
        assert(self@.take(n as int) =~= self@);
        Err(report)
    }

    /// The errors seen so far.
    pub fn errors(&self) -> (errors: Vec<String>)
        ensures
            errors@.map_values(|e: String| e@) == self@,
    {
        let mut errors: Vec<String> = Vec::new();
        for i in 0..self.errors.len()
            invariant
                errors@.len() == i,
                forall|j: int| 0 <= j < i ==> (#[trigger] errors@[j])@ == self@[j],
        {
            errors.push(self.errors[i].clone());
        }
        assert(errors@.map_values(|e: String| e@) =~= self@);
        errors
    }
}

/// One more error adds one more line: its place in the list in brackets, then
/// the error. The first line follows the heading.
pub proof fn law_report_lists_errors(errors: Seq<Seq<char>>, e: Seq<char>)
    ensures
        error_report(seq![e]) == "WebGPU validation errors detected:\n"@ + ("  ["@ + decimal(0)
            + "] "@ + e),
        errors.len() > 0 ==> error_report(errors.push(e)) == error_report(errors) + "\n"@ + ("  ["@
            + decimal(errors.len()) + "] "@ + e),
{
    if errors.len() > 0 {
        assert(errors.push(e).drop_last() =~= errors);
        assert(error_report(errors.push(e)) =~= error_report(errors) + "\n"@ + ("  ["@ + decimal(
            errors.len(),
        ) + "] "@ + e));
    }
}

} // verus!
