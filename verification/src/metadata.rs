//! The metadata block: masked, base64-encoded, encrypted JSON, of which only
//! the audio format is read.

use crate::cipher::{decrypt_block, decrypted, META_KEY};
use crate::error::DumpError;
use crate::mask::{unmask, unmasked};
use crate::reader::{Cursor, Reader};
use base64::engine::general_purpose::STANDARD;
use base64::DecodeError;
use base64::Engine;
use std::string::FromUtf8Error;
use vstd::prelude::*;
use vstd::slice::{slice_subrange, slice_to_vec};
use vstd::std_specs::convert::FromSpecImpl;
use vstd::utf8::{decode_utf8, valid_utf8};

verus! {

/// The error of a failed base64 decoding; nothing is read from it.
#[verifier::external_type_specification]
#[verifier::external_body]
pub struct ExDecodeError(DecodeError);

/// The error of a failed JSON parse; nothing is read from it.
#[verifier::external_type_specification]
#[verifier::external_body]
pub struct ExJsonError(serde_json::Error);

/// The error of a failed UTF-8 validation; nothing is read from it.
#[verifier::external_type_specification]
#[verifier::external_body]
pub struct ExFromUtf8Error(FromUtf8Error);

/// Mask over every byte of the metadata block.
pub const META_MASK: u8 = 0x63;

/// Number of leading bytes of the unmasked block that precede the base64
/// text.
pub const META_HEADER_LEN: usize = 22;

/// Number of leading bytes of the decrypted metadata that precede the JSON
/// text.
pub const META_PREFIX_LEN: usize = 6;

/// The bytes that the `base64` crate's `STANDARD` engine decodes `text` to;
/// `None` where it reports an error.
pub uninterp spec fn base64_decoded(text: Seq<u8>) -> Option<Seq<u8>>;

/// What `serde_json` finds under `key` at the top level of `document`:
/// - `None` where the document does not parse as JSON;
/// - `Some(None)` where it parses and its top level is no object;
/// - `Some(Some(None))` where its top level is an object that holds no
///   string under `key`;
/// - `Some(Some(Some(text)))` where the object holds the string `text` there.
pub uninterp spec fn json_text_member(document: Seq<char>, key: Seq<char>) -> Option<
    Option<Option<Seq<char>>>,
>;

/// Calls `Engine::decode` on `base64::engine::general_purpose::STANDARD`.
///
/// Trusted: the result is the one that [`base64_decoded`] names.
#[verifier::external_body]
fn base64_decode(text: &[u8]) -> (res: Result<Vec<u8>, DecodeError>)
    ensures
        match res {
            Ok(bytes) => base64_decoded(text@) == Some(bytes@),
            Err(_) => base64_decoded(text@) is None,
        },
{
    STANDARD.decode(text)
}

/// Calls `serde_json::from_str` for a `serde_json::Value`, takes the object
/// that `Value::as_object` finds in it, looks `key` up with `Map::get` and
/// takes the string that `Value::as_str` finds there.
///
/// Trusted: the result is the one that [`json_text_member`] names. `Ok(None)`
/// stands for a document that is no object, `Ok(Some(None))` for an object
/// without a string under `key`.
#[verifier::external_body]
fn parse_text_member(document: &str, key: &str) -> (res: Result<
    Option<Option<String>>,
    serde_json::Error,
>)
    ensures
        match res {
            Ok(Some(Some(text))) => json_text_member(document@, key@) == Some(
                Some(Some(text@)),
            ),
            Ok(Some(None)) => json_text_member(document@, key@) == Some(
                Some(None::<Seq<char>>),
            ),
            Ok(None) => json_text_member(document@, key@) == Some(None::<Option<Seq<char>>>),
            Err(_) => json_text_member(document@, key@) is None,
        },
{
    let value: serde_json::Value = serde_json::from_str(document)?;
    match value.as_object() {
        Some(members) => Ok(Some(members.get(key).and_then(serde_json::Value::as_str).map(str::to_owned))),
        None => Ok(None),
    }
}

/// `String::from_utf8` succeeds on valid UTF-8 and on nothing else, and the
/// string it returns holds the characters that the bytes encode.
pub assume_specification[ String::from_utf8 ](bytes: Vec<u8>) -> (res: Result<
    String,
    FromUtf8Error,
>)
    ensures
        res is Ok <==> valid_utf8(bytes@),
        res matches Ok(text) ==> text@ == decode_utf8(bytes@),
;

impl From<DecodeError> for DumpError {
    /// Metadata that is not base64 text is malformed.
    fn from(error: DecodeError) -> (e: DumpError)
        ensures
            e == DumpError::MalformedMetadata,
    {
        DumpError::MalformedMetadata
    }
}

impl FromSpecImpl<DecodeError> for DumpError {
    open spec fn obeys_from_spec() -> bool {
        true
    }

    open spec fn from_spec(error: DecodeError) -> DumpError {
        DumpError::MalformedMetadata
    }
}

impl From<serde_json::Error> for DumpError {
    /// Metadata that is not JSON is malformed.
    fn from(error: serde_json::Error) -> (e: DumpError)
        ensures
            e == DumpError::MalformedMetadata,
    {
        DumpError::MalformedMetadata
    }
}

impl FromSpecImpl<serde_json::Error> for DumpError {
    open spec fn obeys_from_spec() -> bool {
        true
    }

    open spec fn from_spec(error: serde_json::Error) -> DumpError {
        DumpError::MalformedMetadata
    }
}

impl From<FromUtf8Error> for DumpError {
    /// Metadata that is not UTF-8 text is malformed.
    fn from(error: FromUtf8Error) -> (e: DumpError)
        ensures
            e == DumpError::MalformedMetadata,
    {
        DumpError::MalformedMetadata
    }
}

impl FromSpecImpl<FromUtf8Error> for DumpError {
    open spec fn obeys_from_spec() -> bool {
        true
    }

    open spec fn from_spec(error: FromUtf8Error) -> DumpError {
        DumpError::MalformedMetadata
    }
}

/// What a container says of the audio it wraps.
#[derive(Clone, Debug)]
pub struct Metadata {
    /// Short name of the audio format, such as `mp3` or `flac`.
    pub format: String,
}

/// The format that a JSON document names, given what was found under
/// `format` in it: the document must be an object, and the object must hold
/// a string there.
pub open spec fn format_of_member(member: Option<Option<Option<Seq<char>>>>) -> Result<
    Seq<char>,
    DumpError,
> {
    match member {
        Some(Some(Some(format))) => Ok(format),
        Some(Some(None)) => Err(DumpError::MissingField),
        Some(None) => Err(DumpError::MalformedMetadata),
        None => Err(DumpError::MalformedMetadata),
    }
}

/// The format that decrypted metadata names: after its prefix it must be
/// UTF-8 text, the text must be a JSON object, and the object must hold a
/// string under `format`.
pub open spec fn format_of_plaintext(plaintext: Seq<u8>) -> Result<Seq<char>, DumpError> {
    if plaintext.len() < META_PREFIX_LEN {
        Err(DumpError::MalformedMetadata)
    } else if !valid_utf8(plaintext.skip(META_PREFIX_LEN as int)) {
        Err(DumpError::MalformedMetadata)
    } else {
        format_of_member(
            json_text_member(decode_utf8(plaintext.skip(META_PREFIX_LEN as int)), "format"@),
        )
    }
}

/// The format that a metadata block names: the block is unmasked, its
/// header dropped, the rest decoded from base64 and decrypted.
pub open spec fn format_of_block(block: Seq<u8>) -> Result<Seq<char>, DumpError> {
    if block.len() < META_HEADER_LEN {
        Err(DumpError::MalformedMetadata)
    } else {
        match base64_decoded(unmasked(block, META_MASK).skip(META_HEADER_LEN as int)) {
            None => Err(DumpError::MalformedMetadata),
            Some(ciphertext) => match decrypted(META_KEY@, ciphertext) {
                None => Err(DumpError::DecryptionFailed),
                Some(plaintext) => format_of_plaintext(plaintext),
            },
        }
    }
}

/// The format that the metadata block under the cursor names.
pub open spec fn format_at(cursor: Cursor) -> Result<Seq<char>, DumpError> {
    if cursor.has_block() {
        format_of_block(cursor.block())
    } else {
        Err(DumpError::TruncatedInput)
    }
}

impl Metadata {
    /// Builds the metadata from what a JSON document holds under `format`.
    /// `None` stands for a document that is no object and is malformed;
    /// `Some(None)` for an object without a string there, whose field is
    /// missing.
    pub fn from_member(member: Option<Option<String>>) -> (res: Result<Metadata, DumpError>)
        ensures
            match res {
                Ok(metadata) => member == Some(Some(metadata.format)),
                Err(e) => match member {
                    None => e == DumpError::MalformedMetadata,
                    Some(found) => found is None && e == DumpError::MissingField,
                },
            },
    {
        match member {
            Some(Some(format)) => Ok(Metadata { format }),
            Some(None) => Err(DumpError::MissingField),
            None => Err(DumpError::MalformedMetadata),
        }
    }
}

/// Parses decrypted metadata: drops the prefix, reads the rest as UTF-8
/// JSON and takes the audio format from it.
pub fn convert_meta_data(meta_data: &Vec<u8>) -> (res: Result<Metadata, DumpError>)
    ensures
        match res {
            Ok(metadata) => format_of_plaintext(meta_data@) == Ok::<Seq<char>, DumpError>(
                metadata.format@,
            ),
            Err(e) => format_of_plaintext(meta_data@) == Err::<Seq<char>, DumpError>(e),
        },
{
    if meta_data.len() < META_PREFIX_LEN {
        return Err(DumpError::MalformedMetadata);
    }
    let json: Vec<u8> = slice_to_vec(
        slice_subrange(meta_data.as_slice(), META_PREFIX_LEN, meta_data.len()),
    );
    assert(json@ =~= meta_data@.skip(META_PREFIX_LEN as int));
    let text: String = match String::from_utf8(json) {
        Ok(text) => text,
        Err(error) => {
            return Err(DumpError::from(error));
        },
    };
    match parse_text_member(text.as_str(), "format") {
        Ok(member) => Metadata::from_member(member),
        Err(error) => Err(DumpError::from(error)),
    }
}

/// Reads the metadata block under the cursor and returns what it says.
///
/// The cursor moves past the block as soon as the block has been read,
/// whatever the block then turns out to hold; it stays where it was only if
/// the block runs past the end of the container.
pub fn read_meta_data(file: &mut Reader) -> (res: Result<Metadata, DumpError>)
    ensures
        match res {
            Ok(metadata) => format_at(old(file)@) == Ok::<Seq<char>, DumpError>(metadata.format@),
            Err(e) => format_at(old(file)@) == Err::<Seq<char>, DumpError>(e),
        },
        final(file)@ == if old(file)@.has_block() {
            old(file)@.after_block()
        } else {
            old(file)@
        },
{
    let mut meta_data: Vec<u8> = match file.read_block() {
        Ok(block) => block,
        Err(e) => {
            return Err(e);
        },
    };
    if meta_data.len() < META_HEADER_LEN {
        return Err(DumpError::MalformedMetadata);
    }
    unmask(&mut meta_data, META_MASK);
    let text = slice_subrange(meta_data.as_slice(), META_HEADER_LEN, meta_data.len());
    assert(text@ =~= meta_data@.skip(META_HEADER_LEN as int));
    let ciphertext: Vec<u8> = match base64_decode(text) {
        Ok(ciphertext) => ciphertext,
        Err(error) => {
            return Err(DumpError::from(error));
        },
    };
    let plaintext: Vec<u8> = match decrypt_block(&META_KEY, ciphertext.as_slice()) {
        Ok(plaintext) => plaintext,
        Err(e) => {
            return Err(e);
        },
    };
    convert_meta_data(&plaintext)
}

} // verus!
