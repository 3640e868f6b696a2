//! What a script has produced so far: its primary output, the lines it has
//! printed, and the files it has attached.

use vstd::prelude::*;
use vstd::string::StringExecFns;
use crate::text::push_char;

verus! {

/// A file produced by a script, held until it can be delivered.
#[derive(Debug, PartialEq, Eq)]
pub struct Attachment {
    pub filename: String,
    pub data: Vec<u8>,
}

/// The mathematical content of an [`Attachment`].
pub struct AttachmentView {
    pub filename: Seq<char>,
    pub data: Seq<u8>,
}

impl View for Attachment {
    type V = AttachmentView;

    open spec fn view(&self) -> AttachmentView {
        AttachmentView { filename: self.filename@, data: self.data@ }
    }
}

impl Clone for Attachment {
    fn clone(&self) -> (copy: Self)
        ensures
            copy@ == self@,
    {
        Attachment { filename: self.filename.clone(), data: self.data.clone() }
    }
}

/// The contents of every attachment in `items`, in order.
pub open spec fn attachment_views(items: Seq<Attachment>) -> Seq<AttachmentView> {
    Seq::new(items.len(), |i: int| items[i]@)
}

/// The primary output of a script (the latest value wins) and the log of the
/// lines it printed (append only).
pub struct OutputState {
    pub output: String,
    pub print_log: Vec<String>,
}

/// The mathematical content of an [`OutputState`].
pub struct OutputView {
    pub output: Seq<char>,
    pub print_log: Seq<Seq<char>>,
}

impl View for OutputState {
    type V = OutputView;

    open spec fn view(&self) -> OutputView {
        OutputView { output: self.output@, print_log: crate::text::texts(self.print_log@) }
    }
}

/// The heading that separates the primary output from the print log.
pub open spec fn print_log_header() -> Seq<char> {
    "\n**Print Log**\n"@
}

/// Every line of `log`, each followed by a line break.
pub open spec fn log_lines(log: Seq<Seq<char>>) -> Seq<char>
    decreases log.len(),
{
    if log.len() == 0 {
        Seq::<char>::empty()
    } else {
        log_lines(log.drop_last()) + log.last().push('\n')
    }
}

/// The single text shown for an output state: the primary output, followed,
/// when anything was printed, by the heading and the printed lines.
pub open spec fn render_text(state: OutputView) -> Seq<char> {
    if state.print_log.len() == 0 {
        state.output
    } else {
        state.output + print_log_header() + log_lines(state.print_log)
    }
}

/// What `adopt_result` leaves as primary output: an explicit output stays;
/// an empty one gives way to the script's return value, if it has one.
pub open spec fn adopted_output(output: Seq<char>, result: Option<Seq<char>>) -> Seq<char> {
    match result {
        Some(value) if output.len() == 0 => value,
        _ => output,
    }
}

impl OutputState {
    /// An empty state: no output, nothing printed.
    pub fn new() -> (state: Self)
        ensures
            state@.output.len() == 0,
            state@.print_log.len() == 0,
    {
        OutputState { output: String::new(), print_log: Vec::new() }
    }

    /// Replaces the primary output.
    pub fn update_output(&mut self, value: String)
        ensures
            final(self)@.output == value@,
            final(self)@.print_log == old(self)@.print_log,
    {
        self.output = value;
    }

    /// Appends one line to the print log.
    pub fn append_print(&mut self, line: String)
        ensures
            final(self)@.output == old(self)@.output,
            final(self)@.print_log == old(self)@.print_log.push(line@),
    {
        self.print_log.push(line);
        assert(final(self)@.print_log =~= old(self)@.print_log.push(line@));
    }

    /// Takes the script's return value as primary output when no output was
    /// set explicitly.
    pub fn adopt_result(&mut self, result: Option<String>)
        ensures
            final(self)@.output == adopted_output(
                old(self)@.output,
                match result {
                    Some(value) => Some(value@),
                    None => None,
                },
            ),
            final(self)@.print_log == old(self)@.print_log,
    {
        if self.output.as_str().is_empty() {
            if let Some(value) = result {
                self.output = value;
            }
        }
    }

    /// The text to show for this state.
    pub fn render(&self) -> (text: String)
        ensures
            text@ == render_text(self@),
    {
        let mut text = self.output.clone();
        if self.print_log.len() == 0 {
            return text;
        }
        text.append("\n**Print Log**\n");
        let ghost log = self@.print_log;
        let mut i: usize = 0;
        assert(log.take(0) =~= Seq::<Seq<char>>::empty());
        while i < self.print_log.len()
            invariant
                i <= self.print_log.len(),
                log == self@.print_log,
                log.len() == self.print_log.len(),
                text@ == self@.output + print_log_header() + log_lines(log.take(i as int)),
            decreases self.print_log.len() - i,
        {
            let ghost before = text@;
            text.append(self.print_log[i].as_str());
            push_char(&mut text, '\n');
            proof {
                let upto = log.take(i + 1);
                assert(upto.drop_last() =~= log.take(i as int));
                assert(upto.last() == self.print_log@[i as int]@);
                assert(text@ =~= self@.output + print_log_header() + log_lines(upto));
            }
            i += 1;
        }
        assert(log.take(i as int) =~= log);
        text
    }
}

} // verus!
