//! The terminal that a Codex session runs in, rebuilt from the output of Codex.

use vstd::prelude::*;

use crate::session::{SessionError, Snapshot};
use crate::time::Moment;

verus! {

/// A terminal of vt100.
#[verifier::external_body]
pub struct Emulator {
    parser: vt100::Parser,
}

/// The output that a terminal has processed, call by call.
pub uninterp spec fn emulator_input(emulator: Emulator) -> Seq<Seq<u8>>;

/// The rows, the columns and the scrollback that a terminal was made with.
pub uninterp spec fn emulator_shape(emulator: Emulator) -> (u16, u16, usize);

/// The text on the screen of a vt100 terminal of a shape that has processed some output.
pub uninterp spec fn screen_text(shape: (u16, u16, usize), input: Seq<Seq<u8>>) -> Seq<char>;

/// `vt100::Parser::new` makes a terminal that has processed nothing.
#[verifier::external_body]
fn new_emulator(rows: u16, cols: u16, scrollback: usize) -> (r: Emulator)
    requires
        2 <= rows,
        3 <= cols < 65_528,
    ensures
        emulator_input(r) == Seq::<Seq<u8>>::empty(),
        emulator_shape(r) == (rows, cols, scrollback),
{
    Emulator { parser: vt100::Parser::new(rows, cols, scrollback) }
}

/// `vt100::Parser::process` has a terminal process some output.
#[verifier::external_body]
fn process(emulator: &mut Emulator, output: &[u8])
    ensures
        emulator_input(*final(emulator)) == emulator_input(*old(emulator)).push(output@),
        emulator_shape(*final(emulator)) == emulator_shape(*old(emulator)),
{
    emulator.parser.process(output);
}

/// `vt100::Screen::contents` gives the text on the screen. It depends on nothing but the shape of
/// the terminal and the output that it has processed.
#[verifier::external_body]
fn contents(emulator: &Emulator) -> (r: String)
    ensures
        r@ == screen_text(emulator_shape(*emulator), emulator_input(*emulator)),
{
    emulator.parser.screen().contents()
}

/// A terminal, and what is known of its connection to Codex.
pub struct TerminalState {
    pub emulator: Emulator,
    /// How often output has changed the terminal.
    pub revision: u64,
    /// When output last changed the terminal.
    pub last_update: Moment,
    /// Whether there is no more output.
    pub closed: bool,
    /// Why output could not be read, where it could not.
    pub read_error: Option<String>,
}

impl TerminalState {
    /// The text on the screen.
    pub open spec fn screen(self) -> Seq<char> {
        screen_text(emulator_shape(self.emulator), emulator_input(self.emulator))
    }

    /// A terminal without scrollback that has processed nothing.
    pub fn new(rows: u16, cols: u16, now: Moment) -> (r: TerminalState)
        requires
            2 <= rows,
            3 <= cols < 65_528,
        ensures
            emulator_input(r.emulator) == Seq::<Seq<u8>>::empty(),
            emulator_shape(r.emulator) == (rows, cols, 0usize),
            r.revision == 0,
            r.last_update == now,
            !r.closed,
            r.read_error is None,
    {
        TerminalState {
            emulator: new_emulator(rows, cols, 0),
            revision: 0,
            last_update: now,
            closed: false,
            read_error: None,
        }
    }

    /// Codex has put out something.
    pub fn feed(&mut self, output: &[u8], now: Moment)
        ensures
            emulator_input(final(self).emulator) == emulator_input(old(self).emulator).push(output@),
            emulator_shape(final(self).emulator) == emulator_shape(old(self).emulator),
            final(self).revision == (if old(self).revision == u64::MAX {
                0
            } else {
                old(self).revision + 1
            }),
            final(self).last_update == now,
            final(self).closed == old(self).closed,
            final(self).read_error == old(self).read_error,
    {
        process(&mut self.emulator, output);
        self.revision = self.revision.wrapping_add(1);
        self.last_update = now;
    }

    /// There is no more output.
    pub fn close(&mut self)
        ensures
            *final(self) == (TerminalState { closed: true, ..*old(self) }),
    {
        self.closed = true;
    }

    /// Output could not be read.
    pub fn fail(&mut self, error: String)
        ensures
            *final(self) == (TerminalState {
                closed: true,
                read_error: Some(error),
                ..*old(self)
            }),
    {
        self.read_error = Some(error);
        self.closed = true;
    }

    /// The terminal as it is, while Codex is connected to it.
    pub fn snapshot(&self) -> (r: Result<Snapshot, SessionError>)
        ensures
            match r {
                Ok(seen) => self.read_error is None && !self.closed && seen.screen@ == self.screen()
                    && seen.revision == self.revision && seen.last_update == self.last_update,
                Err(SessionError::ReaderFailed(error)) => self.read_error == Some(error),
                Err(error) => self.read_error is None && self.closed && error is Closed,
            },
    {
        if let Some(error) = &self.read_error {
            return Err(SessionError::ReaderFailed(error.clone()));
        }
        if self.closed {
            return Err(SessionError::Closed);
        }
        Ok(
            Snapshot {
                screen: contents(&self.emulator),
                revision: self.revision,
                last_update: self.last_update,
            },
        )
    }
}

/// A terminal starts without output, at the size that is asked for and without scrollback.
pub proof fn law_terminals_start_empty(rows: u16, cols: u16, now: Moment, terminal: TerminalState)
    requires
        call_ensures(TerminalState::new, (rows, cols, now), terminal),
    ensures
        emulator_input(terminal.emulator).len() == 0,
        emulator_shape(terminal.emulator) == (rows, cols, 0usize),
        terminal.revision == 0,
        terminal.last_update == now,
        !terminal.closed,
        terminal.read_error is None,
{
}

/// A terminal that Codex is connected to shows what vt100 makes of the output. One that could not be
/// read tells why, and one that was closed tells that.
pub proof fn law_terminals_show_the_output(
    terminal: TerminalState,
    seen: Result<Snapshot, SessionError>,
)
    requires
        call_ensures(TerminalState::snapshot, (&terminal,), seen),
    ensures
        terminal.read_error matches Some(error) ==> (
        seen matches Err(SessionError::ReaderFailed(told)) && told@ == error@),
        terminal.read_error is None && terminal.closed ==> (seen matches Err(error) && error
            is Closed),
        terminal.read_error is None && !terminal.closed ==> (seen matches Ok(shown) && shown.screen@
            == screen_text(emulator_shape(terminal.emulator), emulator_input(terminal.emulator))
            && shown.revision == terminal.revision && shown.last_update == terminal.last_update),
{
}

/// Output is processed whole and in its order, and counted, with the time when it came.
pub proof fn law_output_is_processed(terminal: &mut TerminalState, output: &[u8], now: Moment)
    requires
        call_ensures(TerminalState::feed, (terminal, output, now), ()),
    ensures
        emulator_input(final(terminal).emulator) == emulator_input(old(terminal).emulator).push(
            output@,
        ),
        emulator_shape(final(terminal).emulator) == emulator_shape(old(terminal).emulator),
        old(terminal).revision < u64::MAX ==> final(terminal).revision == old(terminal).revision + 1,
        old(terminal).revision == u64::MAX ==> final(terminal).revision == 0,
        final(terminal).last_update == now,
        final(terminal).closed == old(terminal).closed,
        final(terminal).read_error == old(terminal).read_error,
{
}

/// A terminal that is closed stays as it is otherwise.
pub proof fn law_terminals_are_closed(terminal: &mut TerminalState)
    requires
        call_ensures(TerminalState::close, (terminal,), ()),
    ensures
        final(terminal).closed,
        final(terminal).emulator == old(terminal).emulator,
        final(terminal).revision == old(terminal).revision,
        final(terminal).last_update == old(terminal).last_update,
        final(terminal).read_error == old(terminal).read_error,
{
}

/// A terminal that cannot be read is closed, and keeps the error.
pub proof fn law_terminals_keep_the_error(terminal: &mut TerminalState, error: String)
    requires
        call_ensures(TerminalState::fail, (terminal, error), ()),
    ensures
        final(terminal).closed,
        final(terminal).read_error == Some(error),
        final(terminal).emulator == old(terminal).emulator,
        final(terminal).revision == old(terminal).revision,
        final(terminal).last_update == old(terminal).last_update,
{
}

} // verus!
