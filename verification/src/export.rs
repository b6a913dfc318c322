//! The file to which a configuration is exported: JSON as it stands, or
//! JSON under a password, which is the JSON combined with the password and
//! written in Base64.

use vstd::prelude::*;
use vstd::utf8::{decode_utf8, encode_utf8, encode_utf8_decode_utf8, encode_utf8_valid_utf8, valid_utf8};
use crate::catalog::is_snapshot_text;
use crate::cipher::{xor_bytes, xor_with_password};
use crate::encoding::{base64_bytes, base64_text, decode_base64, encode_base64, text_from_utf8};
use crate::json::json_document;
use crate::text::characters;

verus! {

/// Why a configuration could not be exported or read.
#[derive(Debug, Clone, PartialEq, Eq)]
pub enum ExportError {
    /// The file is empty.
    EmptyFile,
    /// The file is no UTF-8 text; the decoder's words are given.
    NotText(String),
    /// The file is neither JSON as it stands nor Base64; the decoder's
    /// words are given.
    NotBase64(String),
    /// There is data to combine with the password, and the password is
    /// empty.
    EmptyPassword,
    /// What the password leaves of the file is no UTF-8 text; the
    /// decoder's words are given.
    NotTextUnderPassword(String),
    /// The configuration is no JSON document.
    NotJson,
    /// The configuration is too long for its Base64 text to be held.
    TooLong,
}

/// An error without the words of the decoder.
#[derive(Debug, Clone, Copy, PartialEq, Eq, Structural)]
pub enum ExportFault {
    EmptyFile,
    NotText,
    NotBase64,
    EmptyPassword,
    NotTextUnderPassword,
    NotJson,
    TooLong,
}

impl View for ExportError {
    type V = ExportFault;

    open spec fn view(&self) -> ExportFault {
        match self {
            ExportError::EmptyFile => ExportFault::EmptyFile,
            ExportError::NotText(_) => ExportFault::NotText,
            ExportError::NotBase64(_) => ExportFault::NotBase64,
            ExportError::EmptyPassword => ExportFault::EmptyPassword,
            ExportError::NotTextUnderPassword(_) => ExportFault::NotTextUnderPassword,
            ExportError::NotJson => ExportFault::NotJson,
            ExportError::TooLong => ExportFault::TooLong,
        }
    }
}

/// A result as a mathematical value.
pub open spec fn outcome_view(outcome: Result<String, ExportError>) -> Result<Seq<char>, ExportFault> {
    match outcome {
        Ok(text) => Ok(text@),
        Err(e) => Err(e@),
    }
}

/// Whether a character is white space, as Unicode has it.
pub open spec fn is_space(c: char) -> bool {
    let code = c as u32;
    ||| 0x09 <= code <= 0x0d
    ||| code == 0x20
    ||| code == 0x85
    ||| code == 0xa0
    ||| code == 0x1680
    ||| 0x2000 <= code <= 0x200a
    ||| code == 0x2028
    ||| code == 0x2029
    ||| code == 0x202f
    ||| code == 0x205f
    ||| code == 0x3000
}

/// The position of the first character that is no white space, or the
/// length of the text where there is none.
pub open spec fn content_start(text: Seq<char>) -> int
    decreases text.len(),
{
    if text.len() > 0 && is_space(text.first()) {
        1 + content_start(text.drop_first())
    } else {
        0
    }
}

/// The position after the last character that is no white space, or 0
/// where there is none.
pub open spec fn content_end(text: Seq<char>) -> int
    decreases text.len(),
{
    if text.len() > 0 && is_space(text.last()) {
        content_end(text.drop_last())
    } else {
        text.len() as int
    }
}

/// A text without the white space at its start and at its end.
pub open spec fn trimmed(text: Seq<char>) -> Seq<char> {
    if content_start(text) < content_end(text) {
        text.subrange(content_start(text), content_end(text))
    } else {
        Seq::empty()
    }
}

/// Whether a text is JSON as it stands: its first character after white
/// space is an opening brace.
pub open spec fn opens_object(text: Seq<char>) -> bool {
    content_start(text) < text.len() && text[content_start(text)] == '{'
}

/// Whether a character is white space.
fn is_space_char(c: char) -> (space: bool)
    ensures
        space == is_space(c),
{
    let code = c as u32;
    (0x09 <= code && code <= 0x0d) || code == 0x20 || code == 0x85 || code == 0xa0 || code == 0x1680 || (0x2000
        <= code && code <= 0x200a) || code == 0x2028 || code == 0x2029 || code == 0x202f || code == 0x205f || code
        == 0x3000
}

/// Where the content of a text starts and ends.
fn content_bounds(letters: &Vec<char>) -> (bounds: (usize, usize))
    ensures
        bounds.0 == content_start(letters@),
        bounds.1 == content_end(letters@),
        bounds.0 <= letters.len(),
        bounds.1 <= letters.len(),
{
    let mut start: usize = 0;
    assert(letters@.subrange(0, letters.len() as int) =~= letters@);
    while start < letters.len() && is_space_char(letters[start])
        invariant
            start <= letters.len(),
            content_start(letters@) == start + content_start(letters@.subrange(start as int, letters.len() as int)),
        decreases letters.len() - start,
    {
        proof {
            let rest = letters@.subrange(start as int, letters.len() as int);
            assert(rest.first() == letters[start as int]);
            assert(rest.drop_first() =~= letters@.subrange(start + 1, letters.len() as int));
        }
        start += 1;
    }
    proof {
        let rest = letters@.subrange(start as int, letters.len() as int);
        if start < letters.len() {
            assert(rest.first() == letters[start as int]);
        }
    }
    let mut end: usize = letters.len();
    while end > 0 && is_space_char(letters[end - 1])
        invariant
            end <= letters.len(),
            content_end(letters@) == content_end(letters@.subrange(0, end as int)),
        decreases end,
    {
        proof {
            let head = letters@.subrange(0, end as int);
            assert(head.last() == letters[end - 1]);
            assert(head.drop_last() =~= letters@.subrange(0, end - 1));
        }
        end -= 1;
    }
    proof {
        let head = letters@.subrange(0, end as int);
        if end > 0 {
            assert(head.last() == letters[end - 1]);
        }
    }
    (start, end)
}

/// A configuration under a password: the JSON combined with the password,
/// in Base64.
pub open spec fn encrypted(json: Seq<char>, password: Seq<char>) -> Result<Seq<char>, ExportFault> {
    let data = encode_utf8(json);
    if json_document(json) is None {
        Err(ExportFault::NotJson)
    } else if data.len() > 0 && password.len() == 0 {
        Err(ExportFault::EmptyPassword)
    } else if data.len() > usize::MAX / 2 {
        Err(ExportFault::TooLong)
    } else {
        Ok(base64_text(xor_bytes(data, encode_utf8(password))))
    }
}

/// Puts a configuration, which is JSON, under a password.
pub fn encrypt_config_data(json_data: &str, password: &str) -> (outcome: Result<String, ExportError>)
    ensures
        outcome_view(outcome) == encrypted(json_data@, password@),
{
    if !is_snapshot_text(json_data) {
        return Err(ExportError::NotJson);
    }
    let data = json_data.as_bytes();
    match xor_with_password(data, password) {
        Some(combined) => {
            if combined.len() > usize::MAX / 2 {
                Err(ExportError::TooLong)
            } else {
                Ok(encode_base64(combined.as_slice()))
            }
        },
        None => Err(ExportError::EmptyPassword),
    }
}

/// What a file read under a password holds, before it is known to be
/// JSON.
pub open spec fn uncovered(text: Seq<char>, password: Seq<char>) -> Result<Seq<char>, ExportFault> {
    if opens_object(text) {
        Ok(text)
    } else {
        match base64_bytes(trimmed(text)) {
            None => Err(ExportFault::NotBase64),
            Some(data) => if data.len() > 0 && password.len() == 0 {
                Err(ExportFault::EmptyPassword)
            } else if valid_utf8(xor_bytes(data, encode_utf8(password))) {
                Ok(decode_utf8(xor_bytes(data, encode_utf8(password))))
            } else {
                Err(ExportFault::NotTextUnderPassword)
            },
        }
    }
}

/// The configuration that an exported file holds.
pub open spec fn decrypted(file: Seq<u8>, password: Seq<char>) -> Result<Seq<char>, ExportFault> {
    if file.len() == 0 {
        Err(ExportFault::EmptyFile)
    } else if !valid_utf8(file) {
        Err(ExportFault::NotText)
    } else {
        match uncovered(decode_utf8(file), password) {
            Ok(content) => if json_document(content) is Some {
                Ok(content)
            } else {
                Err(ExportFault::NotJson)
            },
            Err(fault) => Err(fault),
        }
    }
}

/// Reads what a file holds under a password.
fn uncover(text: String, password: &str) -> (outcome: Result<String, ExportError>)
    ensures
        outcome_view(outcome) == uncovered(text@, password@),
{
    let letters = characters(text.as_str());
    let (start, end) = content_bounds(&letters);
    if start < letters.len() && letters[start] == '{' {
        return Ok(text);
    }
    let body = if start < end {
        text.as_str().substring_char(start, end)
    } else {
        ""
    };
    proof {
        reveal_strlit("");
        assert(body@ =~= trimmed(text@));
    }
    match decode_base64(body) {
        Err(e) => Err(ExportError::NotBase64(e.to_string())),
        Ok(data) => match xor_with_password(data.as_slice(), password) {
            None => Err(ExportError::EmptyPassword),
            Some(plain) => {
                let ghost bytes = plain@;
                match text_from_utf8(plain) {
                    Ok(content) => {
                        proof {
                            encode_utf8_valid_utf8(content@);
                            encode_utf8_decode_utf8(content@);
                        }
                        Ok(content)
                    },
                    Err(e) => Err(ExportError::NotTextUnderPassword(e.to_string())),
                }
            },
        },
    }
}

/// Reads an exported configuration from the bytes of its file.
pub fn decrypt_config_data(file_content: Vec<u8>, password: &str) -> (outcome: Result<String, ExportError>)
    ensures
        outcome_view(outcome) == decrypted(file_content@, password@),
{
    if file_content.len() == 0 {
        return Err(ExportError::EmptyFile);
    }
    let ghost file = file_content@;
    match text_from_utf8(file_content) {
        Err(e) => Err(ExportError::NotText(e.to_string())),
        Ok(text) => {
            proof {
                encode_utf8_valid_utf8(text@);
                encode_utf8_decode_utf8(text@);
            }
            match uncover(text, password) {
                Ok(content) => {
                    if is_snapshot_text(content.as_str()) {
                        Ok(content)
                    } else {
                        Err(ExportError::NotJson)
                    }
                },
                Err(e) => Err(e),
            }
        },
    }
}

} // verus!
