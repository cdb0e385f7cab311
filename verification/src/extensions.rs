//! The JavaScript sources that extensions bring.
use vstd::prelude::*;
use vstd::string::*;

verus! {

/// Where the code of an extension file comes from.
#[derive(Clone, Copy, Debug)]
pub enum ExtensionFileSourceCode {
    /// The code is in the binary, as a string.
    IncludedInBinary(&'static str),
    /// The code is in a file at this path, read while a snapshot is made.
    LoadedFromFsDuringSnapshot(&'static str),
}

/// A JavaScript source file of an extension.
#[derive(Clone, Copy, Debug)]
pub struct ExtensionFileSource {
    pub specifier: &'static str,
    pub code: ExtensionFileSourceCode,
}

/// Whether a character is 7-bit ASCII.
pub open spec fn is_ascii_char(c: char) -> bool {
    (c as u32) < 128
}

/// The characters of `s` that are not 7-bit ASCII, in order.
pub open spec fn non_ascii_chars(s: Seq<char>) -> Seq<char>
    decreases s.len(),
{
    if s.len() == 0 {
        Seq::empty()
    } else if is_ascii_char(s.last()) {
        non_ascii_chars(s.drop_last())
    } else {
        non_ascii_chars(s.drop_last()).push(s.last())
    }
}

/// The message with which extension code that is not 7-bit ASCII is
/// reported.
pub open spec fn non_ascii_message(specifier: Seq<char>, code: Seq<char>) -> Seq<char> {
    "Extension code must be 7-bit ASCII: "@ + specifier + " (found "@ + non_ascii_chars(code) + ")"@
}

impl ExtensionFileSource {
    /// The characters of `s` that are not 7-bit ASCII, in order.
    pub fn find_non_ascii(s: &str) -> (r: String)
        ensures
            r@ == non_ascii_chars(s@),
    {
        let n = s.unicode_len();
        let mut r = String::new();
        let mut k: usize = 0;
        while k < n
            invariant
                n == s@.len(),
                k <= n,
                r@ == non_ascii_chars(s@.take(k as int)),
            decreases n - k,
        {
            let c = s.get_char(k);
            proof {
                assert(s@.take(k + 1).drop_last() =~= s@.take(k as int));
                assert(s@.take(k + 1).last() == c);
            }
            if (c as u32) >= 128 {
                let one = s.substring_char(k, k + 1);
                assert(one@ =~= seq![c]);
                r.append(one);
            }
            k = k + 1;
        }
        assert(s@.take(n as int) =~= s@);
        r
    }

    /// The code of the file where it is in the binary; `None` where it is
    /// in a file, which is read outside this library.
    pub fn load(&self) -> (r: Option<String>)
        ensures
            match self.code {
                ExtensionFileSourceCode::IncludedInBinary(code) => r matches Some(s) && s@ == code@,
                ExtensionFileSourceCode::LoadedFromFsDuringSnapshot(_) => r is None,
            },
    {
        match self.code {
            ExtensionFileSourceCode::IncludedInBinary(code) => Some(code.to_owned()),
            ExtensionFileSourceCode::LoadedFromFsDuringSnapshot(_) => None,
        }
    }

    /// Checks that extension code is 7-bit ASCII: `None` when it is, else
    /// the message that reports the characters that are not.
    pub fn check_ascii(&self, code: &str) -> (r: Option<String>)
        ensures
            match r {
                None => code.is_ascii(),
                Some(msg) => !code.is_ascii() && msg@ == non_ascii_message(self.specifier@, code@),
            },
    {
        if code.is_ascii() {
            None
        } else {
            let mut msg = "Extension code must be 7-bit ASCII: ".to_owned();
            msg.append(self.specifier);
            msg.append(" (found ");
            let found = Self::find_non_ascii(code);
            msg.append(found.as_str());
            msg.append(")");
            Some(msg)
        }
    }
}

} // verus!
