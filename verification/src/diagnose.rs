//! Reports of errors: the error's message and its chain of causes.

use vstd::prelude::*;
use crate::color::{named_color, named_color_spec};
use crate::console::Console;
use crate::panel::Panel;
use crate::strutil::{owned, push_char, push_str};
use crate::style::{Attributes, Style, empty_style};
use crate::text::Text;

verus! {

/// A dim style.
pub open spec fn dim_style() -> Style {
    Style { attributes: Attributes { dim: Some(true), ..empty_style().attributes }, ..empty_style() }
}

/// The views of the causes' messages.
pub open spec fn cause_views(causes: Seq<String>) -> Seq<Seq<char>> {
    causes.map_values(|c: String| c@)
}

/// The first `k` causes, each as `Caused by: `, its message and a newline.
pub open spec fn caused_lines(causes: Seq<Seq<char>>, k: nat) -> Seq<char>
    decreases k,
{
    if k == 0 || k > causes.len() {
        seq![]
    } else {
        caused_lines(causes, (k - 1) as nat) + "Caused by: "@ + causes[k - 1] + seq!['\n']
    }
}

/// The first line of a diagnosis of an error with `message`.
pub open spec fn error_line(message: Seq<char>) -> Seq<char> {
    "Error: "@ + message + seq!['\n']
}

/// The plain text of a diagnosis of an error with `message` whose chain of
/// causes has the messages `causes`, nearest first.
pub open spec fn diagnosis_plain(message: Seq<char>, causes: Seq<Seq<char>>) -> Seq<char> {
    error_line(message) + caused_lines(causes, causes.len())
}

/// The text of a diagnosis: `Error: ` and the message and a newline, then
/// for each cause of the chain, nearest first, in dim `Caused by: ` and its
/// message and a newline.
pub fn diagnosis(message: &str, causes: &[String]) -> (t: Text)
    ensures
        t.style == empty_style(),
        t.plain@ == diagnosis_plain(message@, cause_views(causes@)),
        t.spans@.len() == causes@.len(),
        forall|k: int|
            0 <= k < causes@.len() ==> (#[trigger] t.spans@[k]).style == dim_style() && t.spans@[k].start == (
            error_line(message@) + caused_lines(cause_views(causes@), k as nat)).len() && t.spans@[k].end == (
            error_line(message@) + caused_lines(cause_views(causes@), (k + 1) as nat)).len(),
{
    let mut head = owned("Error: ");
    push_str(&mut head, message);
    push_char(&mut head, '\n');
    let mut t = Text::new(head.as_str());
    proof {
        reveal_strlit("Error: ");
        reveal_strlit("Caused by: ");
        assert(t.plain@ =~= error_line(message@) + caused_lines(cause_views(causes@), 0));
    }
    let ghost cv = cause_views(causes@);
    let mut i: usize = 0;
    while i < causes.len()
        invariant
            i <= causes@.len(),
            cv == cause_views(causes@),
            t.style == empty_style(),
            t.plain@ == error_line(message@) + caused_lines(cv, i as nat),
            t.spans@.len() == i,
            forall|k: int|
                0 <= k < i ==> (#[trigger] t.spans@[k]).style == dim_style() && t.spans@[k].start == (
                error_line(message@) + caused_lines(cv, k as nat)).len() && t.spans@[k].end == (
                error_line(message@) + caused_lines(cv, (k + 1) as nat)).len(),
        decreases causes.len() - i,
    {
        let mut c = owned("Caused by: ");
        push_str(&mut c, causes[i].as_str());
        push_char(&mut c, '\n');
        let ghost before = t.spans@;
        t.append_styled(c.as_str(), Style::new().dim(true));
        assert(cv[i as int] == causes@[i as int]@);
        assert(t.plain@ =~= error_line(message@) + caused_lines(cv, (i + 1) as nat));
        assert forall|k: int| 0 <= k < i implies #[trigger] t.spans@[k] == before[k] by {
            assert(t.spans@.drop_last()[k] == t.spans@[k]);
        }
        i = i + 1;
    }
    t
}

/// The text of an error report: the diagnosis followed by a dim rule.
pub fn report_text(message: &str, causes: &[String]) -> (t: Text)
    ensures
        t.style == empty_style(),
        t.plain@ == diagnosis_plain(message@, cause_views(causes@)) + "\n───"@,
{
    let mut t = diagnosis(message, causes);
    t.append_styled("\n───", Style::new().dim(true));
    t
}

/// The panel of an error report: the report's text in a red-bordered panel
/// titled `Error Report`.
pub fn report_panel(message: &str, causes: &[String]) -> (p: Panel<Text>)
    ensures
        p.title matches Some(t) && t@ == "Error Report"@,
        p.border_style.color matches Some(c) && c@ == named_color_spec("red"@),
{
    let t = report_text(message, causes);
    Panel::new(t).title("Error Report").border_style(Style::new().color(named_color("red")))
}

/// Prints the report of an error, given by its message and those of its
/// chain of causes, to `console`.
pub fn report_to(message: &str, causes: &[String], console: &mut Console)
    ensures
        old(console).quiet ==> *final(console) == *old(console),
        crate::console::same_settings(*old(console), *final(console)),
        !old(console).quiet ==> exists|res: crate::console::RenderResult|
            crate::console::wrote(
                *old(console),
                *final(console),
                crate::segment::segments_ansi(#[trigger] crate::console::result_segments(res)) + seq!['\n'],
            ),
{
    let panel = report_panel(message, causes);
    console.println(&panel);
}

} // verus!
