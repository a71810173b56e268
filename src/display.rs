use vstd::prelude::*;
use embedded_graphics::pixelcolor::Rgb565;
use heapless::mpmc::MpMcQueue;

verus! {

#[verifier::external_type_specification]
#[verifier::external_body]
#[verifier::reject_recursive_types(T)]
pub struct ExMpMcQueue<T, const N: usize>(MpMcQueue<T, N>);

#[verifier::external_type_specification]
#[verifier::external_body]
pub struct ExHeaplessString<const N: usize>(heapless::String<N>);

#[verifier::external_type_specification]
#[verifier::external_body]
pub struct ExRgb565(Rgb565);

/// Number of commands the bus holds; a command sent to a full bus is dropped.
pub const QUEUE_CAPACITY: usize = 16;

/// A unit of drawing work for the renderer.
pub enum Command {
    /// Fill the screen with the background.
    Clear,
    /// The starfield and wordmark.
    Splash,
    /// The home screen of a layer (reserved).
    Home { layer_id: u8, layer_name: heapless::String<16>, layer_color: Rgb565 },
    /// The layer selector (reserved).
    Selector {},
    /// The settings screen (reserved).
    Settings {},
    /// The alert screen, with a message of at most 64 bytes.
    Panic { message: heapless::String<64> },
}

/// The commands in a queue, front first.
pub uninterp spec fn queued(q: MpMcQueue<Command, 16>) -> Seq<Command>;

/// Relies on heapless's `MpMcQueue::new`: a queue that holds nothing.
#[verifier::external_body]
fn empty_queue() -> (q: MpMcQueue<Command, 16>)
    ensures
        queued(q) == Seq::<Command>::empty(),
{
    MpMcQueue::new()
}

/// Relies on heapless's `MpMcQueue::enqueue`: while fewer than 16 commands
/// are queued the command goes to the back and nothing comes back; on a full
/// queue the command is handed back in `Err` (here: in `Some`) and the queue
/// is unchanged.
#[verifier::external_body]
fn push_back(q: &mut MpMcQueue<Command, 16>, c: Command) -> (rejected: Option<Command>)
    ensures
        queued(*old(q)).len() < 16 ==> rejected is None && queued(*final(q)) == queued(*old(q)).push(c),
        queued(*old(q)).len() >= 16 ==> rejected == Some(c) && queued(*final(q)) == queued(*old(q)),
{
    q.enqueue(c).err()
}

/// Relies on heapless's `MpMcQueue::dequeue`: the front command, removed
/// from the queue, or `None` when the queue is empty.
#[verifier::external_body]
fn pop_front(q: &mut MpMcQueue<Command, 16>) -> (r: Option<Command>)
    ensures
        queued(*old(q)).len() == 0 ==> r is None && queued(*final(q)) == queued(*old(q)),
        queued(*old(q)).len() > 0 ==> r == Some(queued(*old(q))[0]) && queued(*final(q))
            == queued(*old(q)).drop_first(),
{
    q.dequeue()
}

/// The queue after sending `c`: `c` at the back, unless the queue is full,
/// in which case `c` is dropped.
pub open spec fn pushed(s: Seq<Command>, c: Command) -> Seq<Command> {
    if s.len() < QUEUE_CAPACITY {
        s.push(c)
    } else {
        s
    }
}

/// What one dequeue takes from the queue `s`, and what it leaves.
pub open spec fn popped(s: Seq<Command>) -> (Option<Command>, Seq<Command>) {
    if s.len() == 0 {
        (None, s)
    } else {
        (Some(s[0]), s.drop_first())
    }
}

/// The commands that dequeueing until the queue is empty yields, in order.
pub open spec fn drained(s: Seq<Command>) -> Seq<Command>
    decreases s.len(),
{
    match popped(s).0 {
        None => seq![],
        Some(c) => seq![c] + drained(popped(s).1),
    }
}

/// The bounded, non-blocking bus that carries drawing work to the renderer.
pub struct CommandQueue {
    queue: MpMcQueue<Command, 16>,
}

impl View for CommandQueue {
    type V = Seq<Command>;

    closed spec fn view(&self) -> Seq<Command> {
        queued(self.queue)
    }
}

impl CommandQueue {
    /// An empty bus.
    pub fn new() -> (q: Self)
        ensures
            q@ == Seq::<Command>::empty(),
    {
        CommandQueue { queue: empty_queue() }
    }

    /// Sends a command without blocking: it is queued at the back when there
    /// is room, and silently dropped when the bus already holds 16 commands.
    /// Returns whether the command was queued.
    pub fn send_command(&mut self, command: Command) -> (sent: bool)
        ensures
            final(self)@ == pushed(old(self)@, command),
            sent == (old(self)@.len() < QUEUE_CAPACITY),
    {
        match push_back(&mut self.queue, command) {
            None => true,
            Some(_) => false,
        }
    }

    /// Sends the alert screen with `message`, on the same terms as [`Self::send_command`].
    pub fn send_panic(&mut self, message: heapless::String<64>) -> (sent: bool)
        ensures
            final(self)@ == pushed(old(self)@, Command::Panic { message }),
            sent == (old(self)@.len() < QUEUE_CAPACITY),
    {
        self.send_command(Command::Panic { message })
    }

    /// Takes the oldest command off the bus, or `None` when it is empty.
    pub fn dequeue(&mut self) -> (c: Option<Command>)
        ensures
            (c, final(self)@) == popped(old(self)@),
    {
        pop_front(&mut self.queue)
    }
}

/// The queue that sending `cmds`, in order, to an empty bus leaves.
pub open spec fn sent(cmds: Seq<Command>) -> Seq<Command>
    decreases cmds.len(),
{
    if cmds.len() == 0 {
        seq![]
    } else {
        pushed(sent(cmds.drop_last()), cmds.last())
    }
}

proof fn lemma_drained(s: Seq<Command>)
    ensures
        drained(s) == s,
    decreases s.len(),
{
    if s.len() > 0 {
        lemma_drained(s.drop_first());
        assert(seq![s[0]] + s.drop_first() =~= s);
    }
}

proof fn lemma_sent_fits(cmds: Seq<Command>)
    requires
        cmds.len() <= QUEUE_CAPACITY,
    ensures
        sent(cmds) == cmds,
    decreases cmds.len(),
{
    if cmds.len() > 0 {
        lemma_sent_fits(cmds.drop_last());
        assert(cmds.drop_last().push(cmds.last()) =~= cmds);
    }
}

/// Sending a 17th command to an empty bus with no dequeue in between drops
/// it: the bus holds exactly the first 16, and draining it yields them in
/// the order they were sent.
pub proof fn lemma_seventeenth_dropped(cmds: Seq<Command>, c: Command)
    requires
        cmds.len() == QUEUE_CAPACITY,
    ensures
        sent(cmds.push(c)) == cmds,
        sent(cmds.push(c)).len() == QUEUE_CAPACITY,
        drained(sent(cmds.push(c))) == cmds,
{
    lemma_sent_fits(cmds);
    assert(cmds.push(c).drop_last() =~= cmds);
    lemma_drained(cmds);
}

/// Sending and dequeueing keep a bus within its capacity, so a bus that
/// starts empty never holds more than 16 commands.
pub proof fn lemma_bounded(s: Seq<Command>, c: Command)
    requires
        s.len() <= QUEUE_CAPACITY,
    ensures
        pushed(s, c).len() <= QUEUE_CAPACITY,
        popped(s).1.len() <= QUEUE_CAPACITY,
{
}

} // verus!
