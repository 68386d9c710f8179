//! Debug symbols as a program artifact carries them: text that was
//! compressed and then written in base64.

use crate::decode::string_from_utf8;
use crate::text::push_str;
use std::io::Read;
use vstd::prelude::*;
use vstd::utf8::{decode_utf8, valid_utf8};

verus! {

/// An error of the debugger, as a front-end in a browser gets it.
#[derive(Debug, PartialEq, Eq)]
pub struct JsDebuggerError {
    pub message: String,
}

impl JsDebuggerError {
    /// An error with the given message.
    pub fn new(message: String) -> (error: JsDebuggerError)
        ensures
            error.message == message,
    {
        JsDebuggerError { message }
    }
}

/// The bytes that a text in standard base64 stands for, or `None` where the
/// text is not base64: what the decoder of the base64 crate makes of it.
pub uninterp spec fn spec_base64(text: Seq<char>) -> Option<Seq<u8>>;

/// The bytes that a zlib stream expands to, or the words of the failure:
/// what the decoder of the flate2 crate makes of the stream.
pub uninterp spec fn spec_inflate(bytes: Seq<u8>) -> Result<Seq<u8>, Seq<char>>;

/// `decode` of the base64 crate with its standard engine: the bytes that a
/// base64 text stands for. Nothing is claimed of the outcome but that it
/// depends on the text alone.
#[verifier::external_body]
fn base64_decode(text: &str) -> (bytes: Option<Vec<u8>>)
    ensures
        match bytes {
            Some(b) => spec_base64(text@) == Some(b@),
            None => spec_base64(text@).is_none(),
        },
{
    base64::Engine::decode(&base64::engine::general_purpose::STANDARD, text).ok()
}

/// `ZlibDecoder` of the flate2 crate, read to its end: the bytes that a zlib
/// stream expands to, or the words of the failure. Nothing is claimed of the
/// outcome but that it depends on the stream alone.
#[verifier::external_body]
fn zlib_inflate(bytes: &Vec<u8>) -> (inflated: Result<Vec<u8>, String>)
    ensures
        match (inflated, spec_inflate(bytes@)) {
            (Ok(out), Ok(expected)) => out@ == expected,
            (Err(words), Err(expected)) => words@ == expected,
            _ => false,
        },
{
    let mut decoder = flate2::read::ZlibDecoder::new(&bytes[..]);
    let mut out = Vec::new();
    match decoder.read_to_end(&mut out) {
        Ok(_) => Ok(out),
        Err(e) => Err(format!("{}", e)),
    }
}

/// The symbol that inflated bytes hold, or the message of the error: the
/// text of the bytes where they are UTF-8.
pub open spec fn spec_symbol_of(inflated: Result<Seq<u8>, Seq<char>>) -> Result<
    Seq<char>,
    Seq<char>,
> {
    match inflated {
        Err(words) => Err("Failed to inflate symbol: "@ + words),
        Ok(bytes) => if valid_utf8(bytes) {
            Ok(decode_utf8(bytes))
        } else {
            Err("Decoded text is not valid UTF-8"@)
        },
    }
}

/// The symbol that a base64 text holds, or the message of the error.
pub open spec fn spec_decode_symbol(text: Seq<char>) -> Result<Seq<char>, Seq<char>> {
    match spec_base64(text) {
        None => Err("Not a base64 string"@),
        Some(bytes) => spec_symbol_of(spec_inflate(bytes)),
    }
}

/// The symbols that the first `n` texts hold, or the message of the first error.
pub open spec fn spec_decode_symbols(texts: Seq<String>, n: nat) -> Result<
    Seq<Seq<char>>,
    Seq<char>,
>
    decreases n,
{
    if n == 0 || n > texts.len() {
        Ok(Seq::empty())
    } else {
        match spec_decode_symbols(texts, (n - 1) as nat) {
            Err(message) => Err(message),
            Ok(symbols) => match spec_decode_symbol(texts[n - 1]@) {
                Err(message) => Err(message),
                Ok(symbol) => Ok(symbols.push(symbol)),
            },
        }
    }
}

/// An error among the first texts is the error of all of them.
pub proof fn lemma_symbols_error(texts: Seq<String>, k: nat, n: nat)
    requires
        k <= n <= texts.len(),
        spec_decode_symbols(texts, k).is_err(),
    ensures
        spec_decode_symbols(texts, n) == spec_decode_symbols(texts, k),
    decreases n,
{
    if k < n {
        lemma_symbols_error(texts, k, (n - 1) as nat);
    }
}

/// The symbol that inflated bytes hold: their text where they are UTF-8.
pub fn symbol_of_inflated(inflated: Result<Vec<u8>, String>) -> (symbol: Result<
    String,
    JsDebuggerError,
>)
    ensures
        match (
            symbol,
            spec_symbol_of(
                match inflated {
                    Ok(bytes) => Ok(bytes@),
                    Err(words) => Err(words@),
                },
            ),
        ) {
            (Ok(text), Ok(expected)) => text@ == expected,
            (Err(e), Err(expected)) => e.message@ == expected,
            _ => false,
        },
{
    match inflated {
        Err(words) => {
            let mut message = "Failed to inflate symbol: ".to_owned();
            push_str(&mut message, words.as_str());
            Err(JsDebuggerError::new(message))
        },
        Ok(bytes) => match string_from_utf8(bytes) {
            Some(text) => Ok(text),
            None => Err(JsDebuggerError::new("Decoded text is not valid UTF-8".to_owned())),
        },
    }
}

/// Reads one symbol: from base64 to bytes, from the compressed bytes to the
/// plain ones, from these to text.
pub fn decode_base64_symbol(base64_symbol: &str) -> (symbol: Result<String, JsDebuggerError>)
    ensures
        match (symbol, spec_decode_symbol(base64_symbol@)) {
            (Ok(text), Ok(expected)) => text@ == expected,
            (Err(e), Err(expected)) => e.message@ == expected,
            _ => false,
        },
{
    match base64_decode(base64_symbol) {
        None => Err(JsDebuggerError::new("Not a base64 string".to_owned())),
        Some(gzipped) => symbol_of_inflated(zlib_inflate(&gzipped)),
    }
}

/// Reads every symbol, in order. The first that fails is the error.
pub fn decode_base64_symbols(base64_symbols: Vec<String>) -> (symbols: Result<
    Vec<String>,
    JsDebuggerError,
>)
    ensures
        match (symbols, spec_decode_symbols(base64_symbols@, base64_symbols@.len())) {
            (Ok(texts), Ok(expected)) => crate::text::lines_view(texts@) == expected,
            (Err(e), Err(expected)) => e.message@ == expected,
            _ => false,
        },
{
    let mut decoded: Vec<String> = crate::text::no_lines();
    let mut i: usize = 0;
    while i < base64_symbols.len()
        invariant
            0 <= i <= base64_symbols.len(),
            spec_decode_symbols(base64_symbols@, i as nat) == Ok::<Seq<Seq<char>>, Seq<char>>(
                crate::text::lines_view(decoded@),
            ),
        decreases base64_symbols.len() - i,
    {
        match decode_base64_symbol(base64_symbols[i].as_str()) {
            Err(e) => {
                proof {
                    lemma_symbols_error(
                        base64_symbols@,
                        (i + 1) as nat,
                        base64_symbols@.len() as nat,
                    );
                }
                return Err(e);
            },
            Ok(text) => {
                crate::text::push_line(&mut decoded, text);
            },
        }
        i += 1;
    }
    Ok(decoded)
}

/// What a run to the end in a browser reports.
pub fn debug_outcome(solved: bool) -> (text: String)
    ensures
        text@ == if solved {
            "Witness solved!"@
        } else {
            "Witness NOT solved ;(!"@
        },
{
    if solved {
        "Witness solved!".to_owned()
    } else {
        "Witness NOT solved ;(!".to_owned()
    }
}

} // verus!
