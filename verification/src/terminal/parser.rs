//! The escape-sequence parser: the `vte` state machine turns bytes into
//! actions, which are recorded here as plain values.
use vstd::prelude::*;

verus! {

#[verifier::external_type_specification]
#[verifier::external_body]
pub struct ExParser<const N: usize>(vte::Parser<N>);

#[verifier::external_type_specification]
#[verifier::external_body]
pub struct ExParams(vte::Params);

/// One action that the parser asks the terminal to perform.
pub enum VtAction {
    /// Draw a character at the cursor.
    Print(char),
    /// Execute a C0 or C1 control byte.
    Execute(u8),
    /// A complete CSI sequence: its parameter groups (each a parameter with its
    /// subparameters), intermediates, overflow flag and final character.
    CsiDispatch { params: Vec<Vec<u16>>, intermediates: Vec<u8>, ignore: bool, action: char },
    /// A complete operating system command.
    OscDispatch { parts: Vec<Vec<u8>>, bell_terminated: bool },
}

/// Records the actions that the parser requests, in order.
pub struct VtCollector {
    pub actions: Vec<VtAction>,
}

impl vte::Perform for VtCollector {
    fn print(&mut self, c: char)
        ensures
            final(self).actions@ == old(self).actions@.push(VtAction::Print(c)),
    {
        self.actions.push(VtAction::Print(c));
    }

    fn execute(&mut self, byte: u8)
        ensures
            final(self).actions@ == old(self).actions@.push(VtAction::Execute(byte)),
    {
        self.actions.push(VtAction::Execute(byte));
    }

    #[verifier::external_body]
    fn csi_dispatch(&mut self, params: &vte::Params, intermediates: &[u8], ignore: bool, action: char) {
        let params: Vec<Vec<u16>> = params.iter().map(|p| p.to_vec()).collect();
        self.actions.push(VtAction::CsiDispatch { params, intermediates: intermediates.to_vec(), ignore, action });
    }

    #[verifier::external_body]
    fn osc_dispatch(&mut self, params: &[&[u8]], bell_terminated: bool) {
        let parts: Vec<Vec<u8>> = params.iter().map(|p| p.to_vec()).collect();
        self.actions.push(VtAction::OscDispatch { parts, bell_terminated });
    }
}

/// A `vte` parser together with the bytes fed to it since it was created.
/// The parser's hidden state is a function of those bytes alone.
pub struct VtParser {
    parser: vte::Parser,
    fed: Ghost<Seq<u8>>,
}

impl View for VtParser {
    type V = Seq<u8>;

    /// The bytes fed to the parser so far, oldest first.
    closed spec fn view(&self) -> Seq<u8> {
        self.fed@
    }
}

/// The actions that the `vte` state machine hands to its performer when it
/// is fed `byte` after having been fed `history` since its creation.
pub uninterp spec fn vt_actions(history: Seq<u8>, byte: u8) -> Seq<VtAction>;

/// The actions that feeding `data`, byte by byte, produces after `history`.
pub open spec fn vt_output(history: Seq<u8>, data: Seq<u8>) -> Seq<VtAction>
    decreases data.len(),
{
    if data.len() == 0 {
        Seq::empty()
    } else {
        let before = data.drop_last();
        vt_output(history, before) + vt_actions(history + before, data.last())
    }
}

/// What `a + b` produces is what `a` produces followed by what `b` produces
/// after `a`.
pub proof fn lemma_vt_output_concat(history: Seq<u8>, a: Seq<u8>, b: Seq<u8>)
    ensures
        vt_output(history, a + b) == vt_output(history, a) + vt_output(history + a, b),
    decreases b.len(),
{
    if b.len() == 0 {
        assert(a + b =~= a);
        assert(vt_output(history, a) + Seq::<VtAction>::empty() =~= vt_output(history, a));
    } else {
        let b0 = b.drop_last();
        lemma_vt_output_concat(history, a, b0);
        assert((a + b).drop_last() =~= a + b0);
        assert((a + b).last() == b.last());
        assert(history + (a + b0) =~= (history + a) + b0);
        assert(vt_output(history, a) + (vt_output(history + a, b0) + vt_actions((history + a) + b0, b.last()))
            =~= (vt_output(history, a) + vt_output(history + a, b0)) + vt_actions((history + a) + b0, b.last()));
    }
}

/// Creates the `vte` parser in its ground state (`vte::Parser::new`).
#[verifier::external_body]
fn new_vte_parser() -> vte::Parser {
    vte::Parser::new()
}

/// A parser that has been fed nothing.
pub fn create_parser() -> (p: VtParser)
    ensures
        p@ == Seq::<u8>::empty(),
{
    VtParser { parser: new_vte_parser(), fed: Ghost(Seq::empty()) }
}

/// Feeds one byte to the parser (`vte::Parser::advance`). The parser calls
/// only the collector's methods, each of which appends one action, so the
/// actions recorded before stay in place and the ones appended are those
/// that the byte produces after the bytes fed before it.
#[verifier::external_body]
pub(crate) fn advance(p: &mut VtParser, collector: &mut VtCollector, byte: u8)
    ensures
        final(p)@ == old(p)@.push(byte),
        final(collector).actions@ == old(collector).actions@ + vt_actions(old(p)@, byte),
{
    p.parser.advance(collector, byte);
}

} // verus!
