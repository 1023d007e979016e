//! The player's side of MIDI playback, as decisions: which transitions a
//! player may take, which messages a channel sends, and how long to wait
//! before each event of a schedule. Opening ports, sleeping and sending are
//! the caller's part.

use vstd::prelude::*;
use crate::scheduler::{TimedEvent, CHANNEL_COUNT};

verus! {

/// The velocity of every message.
pub const VELOCITY: u8 = 0x64;

/// Why a player refuses a step.
#[derive(Debug, Clone, Copy, PartialEq, Eq, Structural)]
pub enum PlayerError {
    /// There is no MIDI output.
    NoMidiOutput,
    /// The port index is not below the number of ports.
    PortIndexOutOfRange,
    /// No port was selected before connecting.
    NoPortSelected,
    /// The output was handed to a connection already, or never made.
    OutputNotInitialized,
    /// The score has no tracks.
    NoTracksInScore,
    /// The output offers no port.
    NoOutputPortsAvailable,
}

/// Where a player stands.
#[derive(Debug, Clone, Copy, PartialEq, Eq, Structural)]
pub enum PlayerState {
    /// No port is selected.
    Uninitialized,
    /// A port is selected and not connected to.
    PortSelected,
    /// The output went into a connection and the channels are bound.
    Connected,
    /// A schedule is loaded and nothing of it is sent yet.
    Scheduled,
    /// Some event of the schedule is sent and some is left.
    Draining,
    /// The player was closed.
    Closed,
}

/// A three-byte channel message.
#[derive(Debug, Clone, Copy, PartialEq, Eq, Structural)]
pub struct MidiMessage {
    pub status: u8,
    pub pitch: u8,
    pub velocity: u8,
}

/// Status byte of a note-on on a channel.
pub open spec fn note_on_status(channel: u8) -> u8 {
    0x90u8 | (channel & 0x0Fu8)
}

/// Status byte of a note-off on a channel.
pub open spec fn note_off_status(channel: u8) -> u8 {
    0x80u8 | (channel & 0x0Fu8)
}

/// The messages that start or stop the given notes, one for each note in
/// order.
pub open spec fn messages_of(status: u8, notes: Seq<u8>) -> Seq<MidiMessage> {
    Seq::new(notes.len(), |i: int| MidiMessage { status, pitch: notes[i], velocity: VELOCITY })
}

/// A channel of a player: no more than its number.
#[derive(Debug, Clone, Copy, PartialEq, Eq, Structural)]
pub struct MidiPlayerChannel {
    pub channel: u8,
}

impl MidiMessage {
    /// The bytes as they go over the wire.
    pub fn bytes(&self) -> (r: [u8; 3])
        ensures
            r@ == seq![self.status, self.pitch, self.velocity],
    {
        let r = [self.status, self.pitch, self.velocity];
        r
    }
}

impl MidiPlayerChannel {
    pub fn new(channel: u8) -> (r: MidiPlayerChannel)
        ensures
            r.channel == channel,
    {
        MidiPlayerChannel { channel }
    }

    /// One message of a status for each note.
    fn messages(status: u8, notes: &[u8]) -> (r: Vec<MidiMessage>)
        ensures
            r@ == messages_of(status, notes@),
    {
        let mut out: Vec<MidiMessage> = Vec::new();
        let mut i: usize = 0;
        while i < notes.len()
            invariant
                i <= notes@.len(),
                out@ == messages_of(status, notes@.subrange(0, i as int)),
            decreases notes@.len() - i,
        {
            out.push(MidiMessage { status, pitch: notes[i], velocity: VELOCITY });
            i = i + 1;
        }
        out
    }

    /// The note-on messages of the notes.
    pub fn play_notes(&self, notes: &[u8]) -> (r: Vec<MidiMessage>)
        ensures
            r@ == messages_of(note_on_status(self.channel), notes@),
    {
        MidiPlayerChannel::messages(0x90u8 | (self.channel & 0x0Fu8), notes)
    }

    /// The note-off messages of the notes.
    pub fn stop_notes(&self, notes: &[u8]) -> (r: Vec<MidiMessage>)
        ensures
            r@ == messages_of(note_off_status(self.channel), notes@),
    {
        MidiPlayerChannel::messages(0x80u8 | (self.channel & 0x0Fu8), notes)
    }

    /// The note-off messages of all 128 notes, from 0 up.
    pub fn stop_all(&self) -> (r: Vec<MidiMessage>)
        ensures
            r@ == messages_of(note_off_status(self.channel), Seq::new(128, |i: int| i as u8)),
    {
        let mut all: Vec<u8> = Vec::new();
        let mut n: u8 = 0;
        while n < 128
            invariant
                n <= 128,
                all@ == Seq::new(n as nat, |i: int| i as u8),
            decreases 128 - n,
        {
            all.push(n);
            n = n + 1;
        }
        self.stop_notes(all.as_slice())
    }
}

/// The status bytes keep the kind in the high four bits and the channel,
/// modulo 16, in the low four.
pub proof fn lemma_status_bytes(channel: u8)
    ensures
        note_on_status(channel) == 0x90 + channel % 16,
        note_off_status(channel) == 0x80 + channel % 16,
{
    assert(0x90u8 | (channel & 0x0Fu8) == 0x90u8 + channel % 16u8) by (bit_vector);
    assert(0x80u8 | (channel & 0x0Fu8) == 0x80u8 + channel % 16u8) by (bit_vector);
}

/// The messages that an event of a schedule sends on the channel of its
/// track.
pub fn event_messages(event: &TimedEvent) -> (r: Vec<MidiMessage>)
    requires
        event.track_idx < CHANNEL_COUNT,
    ensures
        r@ == messages_of(
            if event.is_start {
                note_on_status(event.track_idx as u8)
            } else {
                note_off_status(event.track_idx as u8)
            },
            event.notes@,
        ),
{
    let channel = MidiPlayerChannel::new(event.track_idx as u8);
    if event.is_start {
        channel.play_notes(event.notes.as_slice())
    } else {
        channel.stop_notes(event.notes.as_slice())
    }
}

/// How long to wait before an event that is due `trigger_time` after the
/// launch when `elapsed` has passed since: the rest of the time, and
/// nothing when the event is past due.
pub fn wait_before(trigger_time: u128, elapsed: u128) -> (r: u128)
    ensures
        r == if trigger_time > elapsed {
            trigger_time - elapsed
        } else {
            0
        },
{
    if trigger_time > elapsed {
        trigger_time - elapsed
    } else {
        0
    }
}

/// What a player knows of its transport.
pub struct PlayerView {
    pub name: Seq<char>,
    /// Whether there is an output that is not in a connection.
    pub output_ready: bool,
    /// The selected port.
    pub port: Option<usize>,
    /// Whether there is a connection.
    pub connected: bool,
    /// Whether the channels are bound.
    pub channels_bound: bool,
    /// The events of the loaded schedule, and how many of them are sent.
    pub loaded: nat,
    pub sent: nat,
    pub closed: bool,
}

/// The book-keeping of a MIDI player. It holds no transport: the caller
/// opens the output, connects and sends, and tells the player how each went.
#[derive(Debug)]
pub struct MidiPlayer {
    name: String,
    output_ready: bool,
    port: Option<usize>,
    connected: bool,
    channels_bound: bool,
    loaded: usize,
    sent: usize,
    closed: bool,
}

/// What to do on closing.
#[derive(Debug, Clone, Copy, PartialEq, Eq, Structural)]
pub struct CloseAction {
    /// Send note-off for every note on every channel.
    pub silence_channels: bool,
    /// Close the connection and keep the output it gives back.
    pub close_connection: bool,
}

impl View for MidiPlayer {
    type V = PlayerView;

    closed spec fn view(&self) -> PlayerView {
        PlayerView {
            name: self.name@,
            output_ready: self.output_ready,
            port: self.port,
            connected: self.connected,
            channels_bound: self.channels_bound,
            loaded: self.loaded as nat,
            sent: self.sent as nat,
            closed: self.closed,
        }
    }
}

impl PlayerView {
    /// The state that the book-keeping amounts to.
    pub open spec fn state(self) -> PlayerState {
        if self.closed {
            PlayerState::Closed
        } else if self.channels_bound {
            if self.loaded == 0 {
                PlayerState::Connected
            } else if self.sent == 0 {
                PlayerState::Scheduled
            } else {
                PlayerState::Draining
            }
        } else if self.port is Some {
            PlayerState::PortSelected
        } else {
            PlayerState::Uninitialized
        }
    }

    /// What `select_port` answers.
    pub open spec fn select_port(self, port_index: usize, port_count: usize) -> Result<
        PlayerView,
        PlayerError,
    > {
        if !self.output_ready {
            Err(PlayerError::NoMidiOutput)
        } else if port_index >= port_count {
            Err(PlayerError::PortIndexOutOfRange)
        } else {
            Ok(PlayerView { port: Some(port_index), closed: false, ..self })
        }
    }

    /// What `begin_connect` answers: the port to connect to.
    pub open spec fn begin_connect(self) -> Result<usize, PlayerError> {
        match self.port {
            None => Err(PlayerError::NoPortSelected),
            Some(port) => if !self.output_ready {
                Err(PlayerError::OutputNotInitialized)
            } else {
                Ok(port)
            },
        }
    }
}

impl MidiPlayer {
    /// A player of a name; `output_ready` says whether the output could be
    /// opened.
    pub fn new(name: &str, output_ready: bool) -> (r: MidiPlayer)
        ensures
            r@ == (PlayerView {
                name: name@,
                output_ready,
                port: None,
                connected: false,
                channels_bound: false,
                loaded: 0,
                sent: 0,
                closed: false,
            }),
    {
        MidiPlayer {
            name: name.to_owned(),
            output_ready,
            port: None,
            connected: false,
            channels_bound: false,
            loaded: 0,
            sent: 0,
            closed: false,
        }
    }

    pub fn name(&self) -> (r: &String)
        ensures
            r@ == self@.name,
    {
        &self.name
    }

    pub fn state(&self) -> (r: PlayerState)
        ensures
            r == self@.state(),
    {
        if self.closed {
            PlayerState::Closed
        } else if self.channels_bound {
            if self.loaded == 0 {
                PlayerState::Connected
            } else if self.sent == 0 {
                PlayerState::Scheduled
            } else {
                PlayerState::Draining
            }
        } else if self.port.is_some() {
            PlayerState::PortSelected
        } else {
            PlayerState::Uninitialized
        }
    }

    /// Whether ports can be listed: without an output there are none.
    pub fn can_list_ports(&self) -> (r: bool)
        ensures
            r == self@.output_ready,
    {
        self.output_ready
    }

    /// Selects one of the `port_count` ports of the output. It fails
    /// without an output and for an index not below the count, and then
    /// changes nothing.
    pub fn select_port(&mut self, port_index: usize, port_count: usize) -> (r: Result<
        (),
        PlayerError,
    >)
        ensures
            match old(self)@.select_port(port_index, port_count) {
                Ok(view) => r is Ok && final(self)@ == view,
                Err(e) => r == Err::<(), PlayerError>(e) && final(self)@ == old(self)@,
            },
    {
        if !self.output_ready {
            return Err(PlayerError::NoMidiOutput);
        }
        if port_index >= port_count {
            return Err(PlayerError::PortIndexOutOfRange);
        }
        self.port = Some(port_index);
        self.closed = false;
        Ok(())
    }

    /// The first half of connecting: it fails when no port is selected and
    /// when the output is not there to give; else the output is given away
    /// and the caller connects it to the port that is returned.
    pub fn begin_connect(&mut self) -> (r: Result<usize, PlayerError>)
        ensures
            r == old(self)@.begin_connect(),
            r is Err ==> final(self)@ == old(self)@,
            r is Ok ==> final(self)@ == (PlayerView { output_ready: false, ..old(self)@ }),
    {
        match self.port {
            None => Err(PlayerError::NoPortSelected),
            Some(port) => {
                if !self.output_ready {
                    return Err(PlayerError::OutputNotInitialized);
                }
                self.output_ready = false;
                Ok(port)
            },
        }
    }

    /// The second half of connecting: whether or not the connection was
    /// made, the channels are bound and nothing is loaded.
    pub fn finish_connect(&mut self, connection_made: bool)
        ensures
            final(self)@ == (PlayerView {
                connected: connection_made,
                channels_bound: true,
                loaded: 0,
                sent: 0,
                closed: false,
                ..old(self)@
            }),
    {
        self.connected = connection_made;
        self.channels_bound = true;
        self.loaded = 0;
        self.sent = 0;
        self.closed = false;
    }

    /// Closes the player and says what is to be done for it: the channels,
    /// if bound, are silenced; the connection, if there is one, is closed
    /// and gives the output back.
    pub fn close(&mut self) -> (r: CloseAction)
        ensures
            r == (CloseAction {
                silence_channels: old(self)@.channels_bound,
                close_connection: old(self)@.connected,
            }),
            final(self)@ == (PlayerView {
                output_ready: old(self)@.output_ready || old(self)@.connected,
                connected: false,
                loaded: 0,
                sent: 0,
                closed: true,
                ..old(self)@
            }),
    {
        let action = CloseAction {
            silence_channels: self.channels_bound,
            close_connection: self.connected,
        };
        if self.connected {
            self.output_ready = true;
        }
        self.connected = false;
        self.loaded = 0;
        self.sent = 0;
        self.closed = true;
        action
    }

    /// What stands in the way of playing a score of `track_count` tracks on
    /// an output of `port_count` ports: a score without tracks, then an
    /// output without ports.
    pub fn check_playable(track_count: usize, port_count: usize) -> (r: Result<(), PlayerError>)
        ensures
            r == if track_count == 0 {
                Err::<(), PlayerError>(PlayerError::NoTracksInScore)
            } else if port_count == 0 {
                Err::<(), PlayerError>(PlayerError::NoOutputPortsAvailable)
            } else {
                Ok::<(), PlayerError>(())
            },
    {
        if track_count == 0 {
            Err(PlayerError::NoTracksInScore)
        } else if port_count == 0 {
            Err(PlayerError::NoOutputPortsAvailable)
        } else {
            Ok(())
        }
    }

    /// Loads a schedule of `count` events, none of them sent.
    pub fn load(&mut self, count: usize)
        ensures
            final(self)@ == (PlayerView { loaded: count as nat, sent: 0, ..old(self)@ }),
    {
        self.loaded = count;
        self.sent = 0;
    }

    /// Gives the rest of the schedule up: nothing is loaded any more.
    pub fn cancel(&mut self)
        ensures
            final(self)@ == (PlayerView { loaded: 0, sent: 0, ..old(self)@ }),
    {
        self.loaded = 0;
        self.sent = 0;
    }

    /// The next event to send, if any is left.
    pub fn next_event(&self) -> (r: Option<usize>)
        ensures
            r == if self@.sent < self@.loaded {
                Some(self@.sent as usize)
            } else {
                None::<usize>
            },
    {
        if self.sent < self.loaded {
            Some(self.sent)
        } else {
            None
        }
    }

    /// Records that the next event was sent. After the last one nothing is
    /// loaded any more.
    pub fn event_sent(&mut self)
        requires
            old(self)@.sent < old(self)@.loaded,
        ensures
            final(self)@ == if old(self)@.sent + 1 == old(self)@.loaded {
                PlayerView { loaded: 0, sent: 0, ..old(self)@ }
            } else {
                PlayerView { sent: old(self)@.sent + 1, ..old(self)@ }
            },
    {
        if self.sent + 1 == self.loaded {
            self.loaded = 0;
            self.sent = 0;
        } else {
            self.sent = self.sent + 1;
        }
    }
}

impl PlayerError {
    /// The error in words.
    pub fn message(&self) -> (r: String)
        ensures
            r@ == error_text(*self),
    {
        match self {
            PlayerError::NoMidiOutput => "No MIDI output".to_owned(),
            PlayerError::PortIndexOutOfRange => "Port index out of range".to_owned(),
            PlayerError::NoPortSelected => "No port selected".to_owned(),
            PlayerError::OutputNotInitialized => "Midi output is not initialized".to_owned(),
            PlayerError::NoTracksInScore => "No tracks in score".to_owned(),
            PlayerError::NoOutputPortsAvailable => "No MIDI output ports available".to_owned(),
        }
    }
}

/// The words of each error.
pub open spec fn error_text(e: PlayerError) -> Seq<char> {
    match e {
        PlayerError::NoMidiOutput => "No MIDI output"@,
        PlayerError::PortIndexOutOfRange => "Port index out of range"@,
        PlayerError::NoPortSelected => "No port selected"@,
        PlayerError::OutputNotInitialized => "Midi output is not initialized"@,
        PlayerError::NoTracksInScore => "No tracks in score"@,
        PlayerError::NoOutputPortsAvailable => "No MIDI output ports available"@,
    }
}

} // verus!
