//! What a channel reports while a command runs, and what is kept of it.

use vstd::prelude::*;

verus! {

/// One answer of a channel to a wait.
#[derive(Debug)]
pub enum ChannelEvent {
    /// A chunk of output.
    Data(Vec<u8>),
    /// The exit status of the command.
    ExitStatus(u32),
    /// The end of the output.
    Eof,
    /// The channel was closed.
    Close,
    /// The wait came back with nothing.
    Nothing,
    /// Any other message.
    Other,
}

/// The kind of an answer, without what it carries.
#[derive(Debug, Clone, Copy, PartialEq, Eq, Structural)]
pub enum ChannelSignal {
    Data,
    ExitStatus,
    Eof,
    Close,
    Nothing,
    Other,
}

impl ChannelEvent {
    /// The kind of the answer.
    pub open spec fn signal_of(self) -> ChannelSignal {
        match self {
            ChannelEvent::Data(_) => ChannelSignal::Data,
            ChannelEvent::ExitStatus(_) => ChannelSignal::ExitStatus,
            ChannelEvent::Eof => ChannelSignal::Eof,
            ChannelEvent::Close => ChannelSignal::Close,
            ChannelEvent::Nothing => ChannelSignal::Nothing,
            ChannelEvent::Other => ChannelSignal::Other,
        }
    }

    /// Whether the answer ends the output of a command: the end of the
    /// stream, the close of the channel, or a wait that came back with
    /// nothing.
    pub open spec fn ends_output(self) -> bool {
        self is Eof || self is Close || self is Nothing
    }

    /// The kind of the answer.
    pub fn signal(&self) -> (kind: ChannelSignal)
        ensures
            kind == self.signal_of(),
    {
        match self {
            ChannelEvent::Data(_) => ChannelSignal::Data,
            ChannelEvent::ExitStatus(_) => ChannelSignal::ExitStatus,
            ChannelEvent::Eof => ChannelSignal::Eof,
            ChannelEvent::Close => ChannelSignal::Close,
            ChannelEvent::Nothing => ChannelSignal::Nothing,
            ChannelEvent::Other => ChannelSignal::Other,
        }
    }
}

/// What a command has printed and how it ended, as far as the channel has
/// told.
#[derive(Debug)]
pub struct CommandOutput {
    /// The output received so far.
    pub data: Vec<u8>,
    /// The exit status last reported; 0 before any report.
    pub exit_status: u32,
}

/// The output and exit status after an answer of the channel. A chunk of
/// output is added at the end, an exit status takes the place of the one
/// before, and any other answer changes nothing.
pub open spec fn absorbed(data: Seq<u8>, exit_status: u32, event: ChannelEvent) -> (Seq<u8>, u32) {
    match event {
        ChannelEvent::Data(chunk) => (data + chunk@, exit_status),
        ChannelEvent::ExitStatus(status) => (data, status),
        _ => (data, exit_status),
    }
}

/// The output and exit status that a run of answers leaves, read up to the
/// first answer that ends the output.
pub open spec fn drained(data: Seq<u8>, exit_status: u32, events: Seq<ChannelEvent>) -> (
    Seq<u8>,
    u32,
)
    decreases events.len(),
{
    if events.len() == 0 || events[0].ends_output() {
        (data, exit_status)
    } else {
        let next = absorbed(data, exit_status, events[0]);
        drained(next.0, next.1, events.drop_first())
    }
}

impl CommandOutput {
    /// No output yet, and exit status 0.
    pub fn new() -> (output: Self)
        ensures
            output.data@ == Seq::<u8>::empty(),
            output.exit_status == 0,
    {
        CommandOutput { data: Vec::new(), exit_status: 0 }
    }

    /// Takes in one answer of the channel and says whether to wait for
    /// more.
    pub fn absorb(&mut self, event: &ChannelEvent) -> (more: bool)
        ensures
            more == !event.ends_output(),
            (final(self).data@, final(self).exit_status) == absorbed(
                old(self).data@,
                old(self).exit_status,
                *event,
            ),
    {
        match event {
            ChannelEvent::Data(chunk) => {
                let mut i: usize = 0;
                while i < chunk.len()
                    invariant
                        i <= chunk.len(),
                        self.data@ == old(self).data@ + chunk@.take(i as int),
                        self.exit_status == old(self).exit_status,
                    decreases chunk.len() - i,
                {
                    self.data.push(chunk[i]);
                    i += 1;
                }
                assert(chunk@.take(chunk.len() as int) == chunk@);
                true
            },
            ChannelEvent::ExitStatus(status) => {
                self.exit_status = *status;
                true
            },
            ChannelEvent::Eof => false,
            ChannelEvent::Close => false,
            ChannelEvent::Nothing => false,
            ChannelEvent::Other => true,
        }
    }

    /// Takes in a run of answers, up to the first that ends the output.
    pub fn absorb_all(&mut self, events: &[ChannelEvent])
        ensures
            (final(self).data@, final(self).exit_status) == drained(
                old(self).data@,
                old(self).exit_status,
                events@,
            ),
    {
        let mut i: usize = 0;
        assert(events@.skip(0) == events@);
        while i < events.len()
            invariant
                i <= events.len(),
                drained(old(self).data@, old(self).exit_status, events@) == drained(
                    self.data@,
                    self.exit_status,
                    events@.skip(i as int),
                ),
            decreases events.len() - i,
        {
            assert(events@.skip(i as int)[0] == events@[i as int]);
            assert(events@.skip(i as int).drop_first() == events@.skip(i + 1));
            if !self.absorb(&events[i]) {
                return;
            }
            i += 1;
        }
    }
}

} // verus!
