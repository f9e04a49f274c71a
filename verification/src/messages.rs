//! The message log: an append-only ordered record of event strings with
//! their display color, consumed by the presentation layer.
use vstd::prelude::*;

use crate::color::Color;

verus! {

/// The append-only message log.
#[derive(Debug)]
pub struct Messages {
    pub messages: Vec<(String, Color)>,
}

impl View for Messages {
    type V = Seq<(String, Color)>;

    open spec fn view(&self) -> Seq<(String, Color)> {
        self.messages@
    }
}

/// `m2` extends `m1`: the log is append-only, so everything already
/// recorded is kept, in order.
pub open spec fn log_extended(m1: Seq<(String, Color)>, m2: Seq<(String, Color)>) -> bool {
    &&& m2.len() >= m1.len()
    &&& forall|i: int| 0 <= i < m1.len() ==> m2[i] == m1[i]
}

/// The log holds a message with the given text and color at or after
/// position `from`.
pub open spec fn log_contains_from(
    m: Seq<(String, Color)>,
    from: int,
    text: Seq<char>,
    color: Color,
) -> bool {
    exists|idx: int| from <= idx < m.len() && m[idx].0@ == text && m[idx].1 == color
}

/// `m2` is `m1` with one message of the given text and color appended.
pub open spec fn appended(
    m1: Seq<(String, Color)>,
    m2: Seq<(String, Color)>,
    text: Seq<char>,
    color: Color,
) -> bool {
    &&& m2.len() == m1.len() + 1
    &&& m2.subrange(0, m1.len() as int) == m1
    &&& m2.last().0@ == text
    &&& m2.last().1 == color
}

/// `m2` is `m1` with two messages appended, in order.
pub open spec fn appended2(
    m1: Seq<(String, Color)>,
    m2: Seq<(String, Color)>,
    text1: Seq<char>,
    color1: Color,
    text2: Seq<char>,
    color2: Color,
) -> bool {
    &&& m2.len() == m1.len() + 2
    &&& m2.subrange(0, m1.len() as int) == m1
    &&& m2[m1.len() as int].0@ == text1
    &&& m2[m1.len() as int].1 == color1
    &&& m2.last().0@ == text2
    &&& m2.last().1 == color2
}

impl Messages {
    /// An empty log.
    pub fn new() -> (m: Messages)
        ensures
            m@ == Seq::<(String, Color)>::empty(),
    {
        Messages { messages: Vec::new() }
    }

    /// Appends one message; everything already logged is kept unchanged.
    pub fn add(&mut self, message: String, color: Color)
        ensures
            final(self)@ == old(self)@.push((message, color)),
            appended(old(self)@, final(self)@, message@, color),
    {
        self.messages.push((message, color));
        proof {
            assert(self@.subrange(0, old(self)@.len() as int) =~= old(self)@);
        }
    }

    /// The logged messages, oldest first.
    pub fn iter(&self) -> (r: &Vec<(String, Color)>)
        ensures
            r@ == self@,
    {
        &self.messages
    }
}

/// Log extension is transitive.
pub proof fn lemma_log_extended_trans(
    m0: Seq<(String, Color)>,
    m1: Seq<(String, Color)>,
    m2: Seq<(String, Color)>,
)
    requires
        log_extended(m0, m1),
        log_extended(m1, m2),
    ensures
        log_extended(m0, m2),
{
}

/// Appending one message extends the log.
pub proof fn lemma_appended_extends(
    m1: Seq<(String, Color)>,
    m2: Seq<(String, Color)>,
    text: Seq<char>,
    color: Color,
)
    requires
        appended(m1, m2, text, color),
    ensures
        log_extended(m1, m2),
{
    assert forall|i: int| 0 <= i < m1.len() implies m2[i] == m1[i] by {
        assert(m2.subrange(0, m1.len() as int)[i] == m1[i]);
    }
}

/// Appending two messages extends the log.
pub proof fn lemma_appended2_extends(
    m1: Seq<(String, Color)>,
    m2: Seq<(String, Color)>,
    text1: Seq<char>,
    color1: Color,
    text2: Seq<char>,
    color2: Color,
)
    requires
        appended2(m1, m2, text1, color1, text2, color2),
    ensures
        log_extended(m1, m2),
{
    assert forall|i: int| 0 <= i < m1.len() implies m2[i] == m1[i] by {
        assert(m2.subrange(0, m1.len() as int)[i] == m1[i]);
    }
}

/// Appending twice yields the two-message relation: the log never loses
/// or reorders what was already recorded.
pub proof fn lemma_appended_twice(
    m1: Seq<(String, Color)>,
    m2: Seq<(String, Color)>,
    m3: Seq<(String, Color)>,
    text1: Seq<char>,
    color1: Color,
    text2: Seq<char>,
    color2: Color,
)
    requires
        appended(m1, m2, text1, color1),
        appended(m2, m3, text2, color2),
    ensures
        appended2(m1, m3, text1, color1, text2, color2),
{
    assert(m3.subrange(0, m1.len() as int) =~= m2.subrange(0, m1.len() as int));
    assert(m3[m1.len() as int] == m2.subrange(0, m2.len() as int)[m1.len() as int]);
    assert(m3[m1.len() as int] == m2.last());
}

} // verus!
