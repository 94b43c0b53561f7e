//! The queue of input for the agent's next turn.
use crate::message::Message;
use crate::text;
use vstd::prelude::*;
use vstd::string::*;

verus! {

/// Something queued for the next turn.
#[derive(Debug, Clone)]
pub enum TurnInput {
    /// Text that the user wrote.
    User(String),
    /// A prompt that the system made (a finished task, an interrupt).
    System(String),
}

#[verifier::ext_equal]
pub enum TurnInputView {
    User(Seq<char>),
    System(Seq<char>),
}

impl TurnInputView {
    /// The text of the input, whoever it comes from.
    pub open spec fn words(self) -> Seq<char> {
        match self {
            TurnInputView::User(text) => text,
            TurnInputView::System(text) => text,
        }
    }
}

impl View for TurnInput {
    type V = TurnInputView;

    open spec fn view(&self) -> TurnInputView {
        match *self {
            TurnInput::User(text) => TurnInputView::User(text@),
            TurnInput::System(text) => TurnInputView::System(text@),
        }
    }
}

/// The inputs as paragraphs of one text, in the order of their arrival.
pub open spec fn combined(items: Seq<TurnInputView>) -> Seq<char> {
    text::joined(items.map_values(|i: TurnInputView| i.words()), "\n\n"@)
}

/// The user message that carries the inputs.
pub open spec fn turn_message(items: Seq<TurnInputView>) -> crate::message::MessageView {
    crate::message::MessageView::from_user(
        seq![crate::message::ContentBlockView::Text(combined(items))],
    )
}

/// Joins the inputs as paragraphs, in their order.
pub fn combine_inputs(items: &[TurnInput]) -> (r: String)
    ensures
        r@ == combined(items@.map_values(|i: TurnInput| i@)),
{
    let mut parts: Vec<String> = Vec::new();
    let mut i: usize = 0;
    while i < items.len()
        invariant
            i <= items@.len(),
            parts@.len() == i,
            forall|k: int| 0 <= k < i ==> (#[trigger] parts@[k])@ == items@[k]@.words(),
        decreases items.len() - i,
    {
        let text = match &items[i] {
            TurnInput::User(text) => text.clone(),
            TurnInput::System(text) => text.clone(),
        };
        parts.push(text);
        i += 1;
    }
    assert(text::texts(parts@) =~= items@.map_values(|i: TurnInput| i@).map_values(
        |i: TurnInputView| i.words(),
    ));
    text::join(&parts, "\n\n")
}

/// User messages and system events that arrive while the agent is busy, to be
/// handed over together as one user message.
#[derive(Debug, Clone)]
pub struct TurnQueue {
    inner: Vec<TurnInput>,
}

impl View for TurnQueue {
    type V = Seq<TurnInputView>;

    closed spec fn view(&self) -> Seq<TurnInputView> {
        self.inner@.map_values(|i: TurnInput| i@)
    }
}

impl TurnQueue {
    pub fn new() -> (r: TurnQueue)
        ensures
            r@ == Seq::<TurnInputView>::empty(),
    {
        let r = TurnQueue { inner: Vec::new() };
        assert(r@ =~= Seq::<TurnInputView>::empty());
        r
    }

    /// Queues a message of the user.
    pub fn push_user(&mut self, text: String)
        ensures
            final(self)@ == old(self)@.push(TurnInputView::User(text@)),
    {
        self.inner.push(TurnInput::User(text));
        assert(self@ =~= old(self)@.push(TurnInputView::User(text@)));
    }

    /// Queues a system event.
    pub fn push_system(&mut self, text: String)
        ensures
            final(self)@ == old(self)@.push(TurnInputView::System(text@)),
    {
        self.inner.push(TurnInput::System(text));
        assert(self@ =~= old(self)@.push(TurnInputView::System(text@)));
    }

    /// Whether nothing is queued.
    pub fn is_empty(&self) -> (r: bool)
        ensures
            r == (self@.len() == 0),
    {
        self.inner.len() == 0
    }

    /// Drains the queue into one message. To be called once something is
    /// queued.
    pub fn flush(&mut self) -> (r: Message)
        requires
            old(self)@.len() > 0,
        ensures
            r@ == turn_message(old(self)@),
            final(self)@ == Seq::<TurnInputView>::empty(),
    {
        let mut items: Vec<TurnInput> = Vec::new();
        std::mem::swap(&mut items, &mut self.inner);
        assert(self@ =~= Seq::<TurnInputView>::empty());
        let r = Message::user().with_text(combine_inputs(items.as_slice()));
        assert(r@.content =~= turn_message(old(self)@).content);
        r
    }

    /// Drains the queue into one message if anything is queued.
    pub fn try_flush(&mut self) -> (r: Option<Message>)
        ensures
            match r {
                Some(m) => old(self)@.len() > 0 && m@ == turn_message(old(self)@) && final(self)@
                    == Seq::<TurnInputView>::empty(),
                None => old(self)@.len() == 0 && final(self)@ == old(self)@,
            },
    {
        if self.inner.len() == 0 {
            return None;
        }
        Some(self.flush())
    }
}

impl Default for TurnQueue {
    fn default() -> (r: Self)
        ensures
            r@ == Seq::<TurnInputView>::empty(),
    {
        TurnQueue::new()
    }
}

// ── Laws ──────────────────────────────────────────────────────────────

proof fn joining_splits(a: Seq<Seq<char>>, b: Seq<Seq<char>>, sep: Seq<char>)
    requires
        a.len() > 0,
        b.len() > 0,
    ensures
        text::joined(a + b, sep) == text::joined(a, sep) + sep + text::joined(b, sep),
    decreases b.len(),
{
    assert((a + b).drop_last() =~= a + b.drop_last());
    assert((a + b).last() == b.last());
    if b.len() == 1 {
        assert(a + b.drop_last() =~= a);
        assert(text::joined(a + b, sep) == text::joined(a, sep) + sep + b[0]);
    } else {
        joining_splits(a, b.drop_last(), sep);
        assert(text::joined(a + b, sep) =~= text::joined(a, sep) + sep + text::joined(b, sep));
    }
}

/// Arrival order is preserved: what arrived earlier stands before what arrived
/// later, and the two are parted by an empty line, wherever the input is cut.
pub proof fn arrival_order_is_kept(earlier: Seq<TurnInputView>, later: Seq<TurnInputView>)
    requires
        earlier.len() > 0,
        later.len() > 0,
    ensures
        combined(earlier + later) == combined(earlier) + "\n\n"@ + combined(later),
{
    let words = |i: TurnInputView| i.words();
    assert((earlier + later).map_values(words) =~= earlier.map_values(words) + later.map_values(
        words,
    ));
    joining_splits(earlier.map_values(words), later.map_values(words), "\n\n"@);
}

/// A single input is handed over unchanged.
pub proof fn single_input_is_unchanged(item: TurnInputView)
    ensures
        combined(seq![item]) == item.words(),
{
    assert(seq![item].map_values(|i: TurnInputView| i.words()) =~= seq![item.words()]);
}

/// Something that happens to the queue.
#[verifier::ext_equal]
pub enum QueueStep {
    /// An input is queued.
    Push(TurnInputView),
    /// The queue is flushed, if anything is queued.
    Flush,
}

/// What becomes of the queue: what is left in it, and the inputs of each
/// message that was handed over.
pub open spec fn run(queue: Seq<TurnInputView>, steps: Seq<QueueStep>) -> (
    Seq<TurnInputView>,
    Seq<Seq<TurnInputView>>,
)
    decreases steps.len(),
{
    if steps.len() == 0 {
        (queue, Seq::empty())
    } else {
        let (left, taken) = run(queue, steps.drop_last());
        match steps.last() {
            QueueStep::Push(input) => (left.push(input), taken),
            QueueStep::Flush => if left.len() == 0 {
                (left, taken)
            } else {
                (Seq::empty(), taken.push(left))
            },
        }
    }
}

/// The inputs that the steps queue.
pub open spec fn pushed(steps: Seq<QueueStep>) -> Seq<TurnInputView>
    decreases steps.len(),
{
    if steps.len() == 0 {
        Seq::empty()
    } else {
        match steps.last() {
            QueueStep::Push(input) => pushed(steps.drop_last()).push(input),
            QueueStep::Flush => pushed(steps.drop_last()),
        }
    }
}

/// However many flush the queue, and whenever they do, every input is handed
/// over once, in the order of arrival, or is still queued; and nobody gets an
/// empty message.
pub proof fn each_input_is_handed_over_once(queue: Seq<TurnInputView>, steps: Seq<QueueStep>)
    ensures
        ({
            let (left, taken) = run(queue, steps);
            &&& taken.flatten() + left == queue + pushed(steps)
            &&& forall|i: int| 0 <= i < taken.len() ==> (#[trigger] taken[i]).len() > 0
        }),
    decreases steps.len(),
{
    if steps.len() == 0 {
        assert(Seq::<Seq<TurnInputView>>::empty().flatten() =~= Seq::empty());
        assert(Seq::<TurnInputView>::empty() + queue =~= queue + Seq::empty());
    } else {
        let earlier = steps.drop_last();
        let (left, taken) = run(queue, earlier);
        each_input_is_handed_over_once(queue, earlier);
        match steps.last() {
            QueueStep::Push(input) => {
                assert(taken.flatten() + left.push(input) =~= (taken.flatten() + left).push(input));
                assert(queue + pushed(earlier).push(input) =~= (queue + pushed(earlier)).push(
                    input,
                ));
            },
            QueueStep::Flush => {
                if left.len() > 0 {
                    taken.lemma_flatten_push(left);
                    assert(taken.flatten() + left + Seq::empty() =~= taken.flatten() + left);
                }
            },
        }
    }
}

/// Of two that flush one after the other with nothing queued in between, the
/// second gets nothing.
pub proof fn a_flushed_queue_gives_nothing(queue: Seq<TurnInputView>, steps: Seq<QueueStep>)
    ensures
        run(queue, steps.push(QueueStep::Flush).push(QueueStep::Flush)) == run(
            queue,
            steps.push(QueueStep::Flush),
        ),
{
    let once = steps.push(QueueStep::Flush);
    assert(once.push(QueueStep::Flush).drop_last() =~= once);
    assert(once.drop_last() =~= steps);
    reveal_with_fuel(run, 3);
}

} // verus!
