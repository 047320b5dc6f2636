//! Terminals inside the container: what can be sent to one, and the sink
//! that writes input into it.
use vstd::prelude::*;
use vstd::string::StringSliceAdditionalSpecFns;

verus! {

/// Input for a terminal.
pub enum PtyInput {
    Text(String),
}

/// Commands for the task that owns a terminal.
pub enum PtyCommands {
    Input(PtyInput),
    Kill,
}

/// Why writing to a terminal failed: the writer's error.
pub enum PtyError {
    Write(std::io::Error),
}

#[verifier::external_type_specification]
#[verifier::external_body]
pub struct ExIoError(std::io::Error);

/// The bytes that a piece of input puts into the terminal: the UTF-8
/// encoding of its text.
pub open spec fn input_bytes(input: PtyInput) -> Seq<u8> {
    match input {
        PtyInput::Text(s) => vstd::utf8::encode_utf8(s@),
    }
}

/// The outcome of an input, from the outcome of the write: the writer's
/// error is kept.
pub fn input_result(written: Result<(), std::io::Error>) -> (r: Result<(), PtyError>)
    ensures
        match written {
            Ok(()) => r is Ok,
            Err(e) => r matches Err(PtyError::Write(w)) && w == e,
        },
{
    match written {
        Ok(()) => Ok(()),
        Err(e) => Err(PtyError::Write(e)),
    }
}

/// The writing side of a terminal: `write` puts bytes into the terminal's
/// master side (all of them, or it reports the writer's error).
pub struct PtySink<F> {
    write: F,
    /// The bytes handed to the terminal by the inputs that succeeded, in
    /// order.
    sent: Ghost<Seq<u8>>,
}

impl<F> PtySink<F> {
    /// The function that input goes through.
    pub closed spec fn writer(&self) -> F {
        self.write
    }

    /// Everything the sink has written into the terminal: the bytes of each
    /// input that succeeded, in order.
    pub closed spec fn sent(&self) -> Seq<u8> {
        self.sent@
    }

    pub fn new(write: F) -> (r: Self)
        ensures
            r.writer() == write,
            r.sent() == Seq::<u8>::empty(),
    {
        PtySink { write, sent: Ghost(Seq::empty()) }
    }

    /// The bytes that `input` writes.
    pub fn bytes_of(input: &PtyInput) -> (r: &[u8])
        ensures
            r@ == input_bytes(*input),
    {
        match input {
            PtyInput::Text(s) => s.as_str().as_bytes(),
        }
    }
}

/// What an input did: it handed exactly the input's bytes to the writer,
/// once, and answered with the writer's outcome (its error kept).
pub open spec fn input_outcome<F: Fn(&[u8]) -> Result<(), std::io::Error>>(
    write: F,
    input: PtyInput,
    r: Result<(), PtyError>,
) -> bool {
    exists|d: &[u8], w: Result<(), std::io::Error>| {
        &&& d@ == input_bytes(input)
        &&& #[trigger] write.ensures((d,), w)
        &&& match w {
            Ok(()) => r is Ok,
            Err(e) => r matches Err(PtyError::Write(x)) && x == e,
        }
    }
}

impl<F: Fn(&[u8]) -> Result<(), std::io::Error>> PtySink<F> {
    /// Writes a piece of input into the terminal: the UTF-8 bytes of its
    /// text, all of them, in one write; fails with the writer's error where
    /// the writer fails. Whether it fails is the terminal's affair.
    pub fn input(&mut self, input: PtyInput) -> (r: Result<(), PtyError>)
        requires
            forall|d: &[u8]| #[trigger] old(self).writer().requires((d,)),
        ensures
            final(self).writer() == old(self).writer(),
            input_outcome(old(self).writer(), input, r),
            r is Ok ==> final(self).sent() == old(self).sent() + input_bytes(input),
            r is Err ==> final(self).sent() == old(self).sent(),
    {
        let bytes = Self::bytes_of(&input);
        proof {
            assert(old(self).writer().requires((bytes,)));
        }
        let written = (self.write)(bytes);
        let r = input_result(written);
        proof {
            assert(self.write.ensures((bytes,), written));
        }
        if r.is_ok() {
            self.sent = Ghost(self.sent@ + bytes@);
        }
        r
    }
}

} // verus!
