use vstd::prelude::*;
use vstd::string::StringExecFns;

verus! {

#[verifier::external_type_specification]
#[verifier::external_body]
pub struct ExFromUtf8Error(std::string::FromUtf8Error);

/// An output that gathers in memory what is written to it.
pub struct StringOutput {
    buf: String,
}

impl View for StringOutput {
    type V = Seq<char>;

    /// The text written so far.
    closed spec fn view(&self) -> Seq<char> {
        self.buf@
    }
}

impl StringOutput {
    /// An output to which nothing has been written.
    pub fn new() -> (r: StringOutput)
        ensures
            r@ == Seq::<char>::empty(),
    {
        StringOutput { buf: String::new() }
    }

    /// Adds `seg` behind what was written before.
    pub fn write(&mut self, seg: &str)
        ensures
            final(self)@ == old(self)@ + seg@,
    {
        self.buf.append(seg);
    }

    /// The text that was written. Only texts can be written, so this never
    /// fails.
    pub fn into_string(self) -> (r: Result<String, std::string::FromUtf8Error>)
        ensures
            r is Ok,
            r->Ok_0@ == self@,
    {
        Ok(self.buf)
    }
}

impl Default for StringOutput {
    fn default() -> (r: StringOutput)
        ensures
            r@ == Seq::<char>::empty(),
    {
        StringOutput::new()
    }
}

} // verus!
