//! Output of an application, taken apart into characters, controls and escape
//! sequences.

use vstd::prelude::*;

verus! {

/// One thing that the output of an application asks for.
pub enum Action {
    /// A visible character.
    Print(char),
    /// A control character.
    Execute(u8),
    /// A control sequence: its parameters, each with its subparameters, its
    /// intermediate bytes and its final character.
    Csi { params: Vec<Vec<u16>>, intermediates: Vec<u8>, action: char },
    /// An escape sequence: its intermediate bytes and its final byte.
    Esc { intermediates: Vec<u8>, byte: u8 },
    /// An operating system command: its parts.
    Osc { parts: Vec<Vec<u8>> },
    /// A device control string begins; its final character.
    Hook(char),
    /// A byte of the device control string.
    Put(u8),
    /// The device control string ends.
    Unhook,
}

/// What an [`Action`] says.
pub enum Token {
    Print(char),
    Execute(u8),
    Csi { params: Seq<Seq<u16>>, intermediates: Seq<u8>, action: char },
    Esc { intermediates: Seq<u8>, byte: u8 },
    Osc { parts: Seq<Seq<u8>> },
    Hook(char),
    Put(u8),
    Unhook,
}

/// What a list of lists holds.
pub open spec fn nested<T>(lists: Seq<Vec<T>>) -> Seq<Seq<T>> {
    lists.map_values(|list: Vec<T>| list@)
}

impl View for Action {
    type V = Token;

    open spec fn view(&self) -> Token {
        match *self {
            Action::Print(c) => Token::Print(c),
            Action::Execute(b) => Token::Execute(b),
            Action::Csi { params, intermediates, action } => Token::Csi {
                params: nested(params@),
                intermediates: intermediates@,
                action,
            },
            Action::Esc { intermediates, byte } => Token::Esc {
                intermediates: intermediates@,
                byte,
            },
            Action::Osc { parts } => Token::Osc { parts: nested(parts@) },
            Action::Hook(c) => Token::Hook(c),
            Action::Put(b) => Token::Put(b),
            Action::Unhook => Token::Unhook,
        }
    }
}

/// What a list of actions says.
pub open spec fn tokens(actions: Seq<Action>) -> Seq<Token> {
    actions.map_values(|a: Action| a@)
}

/// How many bytes of device control strings there are among the tokens.
pub open spec fn puts(tokens: Seq<Token>) -> nat
    decreases tokens.len(),
{
    if tokens.len() == 0 {
        0
    } else {
        puts(tokens.drop_last()) + (if tokens.last() is Put {
            1nat
        } else {
            0nat
        })
    }
}

/// Whether bytes are UTF-8 without an escape byte: text and control characters, and
/// no sequences.
pub open spec fn is_plain(bytes: Seq<u8>) -> bool {
    vstd::utf8::valid_utf8(bytes) && !bytes.contains(0x1bu8)
}

/// Whether all pieces are such.
pub open spec fn all_plain(pieces: Seq<Seq<u8>>) -> bool {
    forall|i: int| 0 <= i < pieces.len() ==> is_plain(#[trigger] pieces[i])
}

/// A character on its own: it is printed, or carried out where it is a control
/// character.
pub open spec fn plain_token(c: char) -> Token {
    if c < ' ' || '\u{80}' <= c <= '\u{9f}' {
        Token::Execute(c as u8)
    } else {
        Token::Print(c)
    }
}

/// Characters without sequences among them.
pub open spec fn plain_tokens(text: Seq<char>) -> Seq<Token> {
    text.map_values(|c: char| plain_token(c))
}

/// The state machine of `vte`.
#[verifier::external_type_specification]
#[verifier::external_body]
pub struct ExParser<const N: usize>(vte::Parser<N>);

/// The parameters of a sequence, as `vte` hands them out.
#[verifier::external_type_specification]
#[verifier::external_body]
pub struct ExParams(vte::Params);

/// The pieces that a parser of `vte` has been fed since it was made.
pub uninterp spec fn fed(parser: vte::Parser) -> Seq<Seq<u8>>;

/// What a parser of `vte` that has been fed `before` reports on `bytes`.
pub uninterp spec fn decoded(before: Seq<Seq<u8>>, bytes: Seq<u8>) -> Seq<Token>;

/// What the iterator of `vte::Params` runs through: the parameters, each with its
/// subparameters.
pub uninterp spec fn params_of(params: vte::Params) -> Seq<Seq<u16>>;

/// Calls `vte::Parser::new`: a parser that has been fed nothing.
#[verifier::external_body]
fn new_parser() -> (parser: vte::Parser)
    ensures
        fed(parser) == Seq::<Seq<u8>>::empty(),
{
    vte::Parser::new()
}

/// Calls `vte::Parser::advance` and collects what it reports. That depends only
/// on what the parser was fed before and on the bytes. Of UTF-8 without an escape
/// byte, after nothing else, it reports each character. A byte of a device control
/// string is reported for at most one byte of the input. How sequences are taken
/// apart is left unsaid.
#[verifier::external_body]
fn advance(parser: &mut vte::Parser, bytes: &[u8]) -> (actions: Vec<Action>)
    ensures
        tokens(actions@) == decoded(fed(*old(parser)), bytes@),
        all_plain(fed(*old(parser))) && is_plain(bytes@) ==> tokens(actions@) == plain_tokens(
            vstd::utf8::decode_utf8(bytes@),
        ),
        puts(tokens(actions@)) <= bytes@.len(),
        fed(*final(parser)) == fed(*old(parser)).push(bytes@),
{
    let mut collector = Collector { actions: Vec::new() };
    parser.advance(&mut collector, bytes);
    collector.actions
}

/// Copies the parameters out of a `vte::Params` with its iterator.
#[verifier::external_body]
fn params_vec(params: &vte::Params) -> (out: Vec<Vec<u16>>)
    ensures
        nested(out@) == params_of(*params),
{
    params.iter().map(|group| group.to_vec()).collect()
}

fn copy_bytes(bytes: &[u8]) -> (out: Vec<u8>)
    ensures
        out@ == bytes@,
{
    let mut out: Vec<u8> = Vec::new();
    out.extend_from_slice(bytes);
    assert(out@ =~= bytes@);
    out
}

/// Writes down what a parser reports.
pub struct Collector {
    pub actions: Vec<Action>,
}

impl Collector {
    pub open spec fn grown(self, token: Token) -> Seq<Token> {
        tokens(self.actions@).push(token)
    }
}

proof fn lemma_pushed(actions: Seq<Action>, action: Action)
    ensures
        tokens(actions.push(action)) == tokens(actions).push(action@),
{
    assert(tokens(actions.push(action)) =~= tokens(actions).push(action@));
}

impl vte::Perform for Collector {
    fn print(&mut self, c: char)
        ensures
            tokens(final(self).actions@) == old(self).grown(Token::Print(c)),
    {
        let action = Action::Print(c);
        proof {
            lemma_pushed(self.actions@, action);
        }
        self.actions.push(action);
    }

    fn execute(&mut self, byte: u8)
        ensures
            tokens(final(self).actions@) == old(self).grown(Token::Execute(byte)),
    {
        let action = Action::Execute(byte);
        proof {
            lemma_pushed(self.actions@, action);
        }
        self.actions.push(action);
    }

    fn csi_dispatch(
        &mut self,
        params: &vte::Params,
        intermediates: &[u8],
        ignore: bool,
        action: char,
    )
        ensures
            tokens(final(self).actions@) == old(self).grown(
                Token::Csi { params: params_of(*params), intermediates: intermediates@, action },
            ),
    {
        let action = Action::Csi {
            params: params_vec(params),
            intermediates: copy_bytes(intermediates),
            action,
        };
        proof {
            lemma_pushed(self.actions@, action);
        }
        self.actions.push(action);
    }

    fn esc_dispatch(&mut self, intermediates: &[u8], ignore: bool, byte: u8)
        ensures
            tokens(final(self).actions@) == old(self).grown(
                Token::Esc { intermediates: intermediates@, byte },
            ),
    {
        let action = Action::Esc { intermediates: copy_bytes(intermediates), byte };
        proof {
            lemma_pushed(self.actions@, action);
        }
        self.actions.push(action);
    }

    fn osc_dispatch(&mut self, params: &[&[u8]], bell_terminated: bool)
        ensures
            tokens(final(self).actions@) == old(self).grown(
                Token::Osc { parts: params@.map_values(|part: &[u8]| part@) },
            ),
    {
        let ghost goal = params@.map_values(|part: &[u8]| part@);
        let mut parts: Vec<Vec<u8>> = Vec::new();
        let mut i: usize = 0;
        while i < params.len()
            invariant
                goal == params@.map_values(|part: &[u8]| part@),
                i <= params@.len(),
                parts@.len() == i,
                forall|j: int| 0 <= j < i ==> (#[trigger] parts@[j])@ == goal[j],
            decreases params@.len() - i,
        {
            parts.push(copy_bytes(params[i]));
            i += 1;
        }
        assert(nested(parts@) =~= goal);
        let action = Action::Osc { parts };
        proof {
            lemma_pushed(self.actions@, action);
        }
        self.actions.push(action);
    }

    fn hook(&mut self, params: &vte::Params, intermediates: &[u8], ignore: bool, action: char)
        ensures
            tokens(final(self).actions@) == old(self).grown(Token::Hook(action)),
    {
        let action = Action::Hook(action);
        proof {
            lemma_pushed(self.actions@, action);
        }
        self.actions.push(action);
    }

    fn put(&mut self, byte: u8)
        ensures
            tokens(final(self).actions@) == old(self).grown(Token::Put(byte)),
    {
        let action = Action::Put(byte);
        proof {
            lemma_pushed(self.actions@, action);
        }
        self.actions.push(action);
    }

    fn unhook(&mut self)
        ensures
            tokens(final(self).actions@) == old(self).grown(Token::Unhook),
    {
        let action = Action::Unhook;
        proof {
            lemma_pushed(self.actions@, action);
        }
        self.actions.push(action);
    }
}

/// Takes output apart. Sequences may be cut anywhere between two pieces of output.
pub struct Decoder {
    parser: vte::Parser,
}

impl View for Decoder {
    type V = Seq<Seq<u8>>;

    /// The pieces that have been decoded so far.
    closed spec fn view(&self) -> Seq<Seq<u8>> {
        fed(self.parser)
    }
}

impl Decoder {
    pub fn new() -> (decoder: Decoder)
        ensures
            decoder@ == Seq::<Seq<u8>>::empty(),
    {
        Decoder { parser: new_parser() }
    }

    /// Takes the next piece of output apart.
    pub fn decode(&mut self, bytes: &[u8]) -> (actions: Vec<Action>)
        ensures
            tokens(actions@) == decoded(old(self)@, bytes@),
            all_plain(old(self)@) && is_plain(bytes@) ==> tokens(actions@) == plain_tokens(
                vstd::utf8::decode_utf8(bytes@),
            ),
            puts(tokens(actions@)) <= bytes@.len(),
            final(self)@ == old(self)@.push(bytes@),
    {
        advance(&mut self.parser, bytes)
    }
}

} // verus!
