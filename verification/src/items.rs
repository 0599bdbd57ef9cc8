//! The name of a trashed item on disk: its file name, a separator, and the
//! identifier of its deletion instant. Encoding and decoding are inverse to one
//! another.

use crate::base64url::{
    base64url_bytes, base64url_len, base64url_text, codec_faithful, decode_base64url,
    encode_base64url, is_base64url_symbol,
};
use crate::clock::civil_nanos_since;
use crate::ident::{
    id_bytes, id_bytes_of, instant_of, instant_of_bytes, lemma_id_bytes_round_trip,
    valid_id_length, ID_WIDTH,
};
use crate::text::{chars_of, contains_text, find_last, is_last_occurrence, occurs_at};
use vstd::prelude::*;
use vstd::string::StrSliceExecFns;
use vstd::string::StringExecFns;

verus! {

/// The token between the file name and the identifier.
pub const NAME_ID_SEPARATOR: &'static str = " ^";

/// Year of the reference epoch, from whose first midnight the instants count.
pub const REFERENCE_YEAR: i16 = 2024;

/// Month of the reference epoch.
pub const REFERENCE_MONTH: i8 = 1;

/// Day of the reference epoch.
pub const REFERENCE_DAY: i8 = 1;

/// The characters of the separator.
pub open spec fn separator() -> Seq<char> {
    seq![' ', '^']
}

/// The mathematical model of a trashed item's identity.
#[verifier::ext_equal]
pub struct ItemView {
    /// The name that the item had before it was trashed.
    pub filename: Seq<char>,
    /// The deletion instant, in nanoseconds since the reference epoch.
    pub deleted_at: int,
}

/// What identifies a trashed item: its former file name and its deletion instant.
#[derive(Debug, PartialEq, Eq)]
pub struct TrashItemInfos {
    /// The name that the item had before it was trashed.
    pub filename: String,
    /// The deletion instant, in nanoseconds since the reference epoch: midnight of
    /// 1 January 2024, civil time.
    pub deleted_at: i128,
}

/// Why an on-disk name is not that of a trashed item.
#[derive(Debug, Clone, Copy, PartialEq, Eq, Structural)]
pub enum TrashItemDecodingError {
    /// The name holds no separator.
    InvalidFilenameFormat,
    /// What follows the last separator is not base64.
    BadlyEncodedId,
    /// The identifier is empty or longer than sixteen bytes.
    InvalidIdLength,
}

impl View for TrashItemInfos {
    type V = ItemView;

    open spec fn view(&self) -> ItemView {
        ItemView { filename: self.filename@, deleted_at: self.deleted_at as int }
    }
}

impl Clone for TrashItemInfos {
    fn clone(&self) -> (copy: Self)
        ensures
            copy@ == self@,
    {
        TrashItemInfos { filename: self.filename.clone(), deleted_at: self.deleted_at }
    }
}

/// The identifier of an instant as text.
pub open spec fn id_text(nanos: int) -> Seq<char> {
    base64url_text(id_bytes(nanos))
}

/// The on-disk name of an item: file name, separator, identifier.
pub open spec fn encoded_name(item: ItemView) -> Seq<char> {
    item.filename + separator() + id_text(item.deleted_at)
}

/// The position at which the right-most separator of `name` starts, where `name`
/// holds one.
pub open spec fn last_separator(name: Seq<char>) -> int {
    choose|at: int| is_last_occurrence(name, separator(), at)
}

/// The instant that decoded identifier bytes stand for, or the reason why they
/// stand for none.
pub open spec fn instant_of_id(bytes: Seq<u8>) -> Result<int, TrashItemDecodingError> {
    if valid_id_length(bytes) {
        Ok(instant_of_bytes(bytes))
    } else {
        Err(TrashItemDecodingError::InvalidIdLength)
    }
}

/// What an on-disk name decodes to. The name is split at its right-most
/// separator; what stands before it is the file name, what follows it the
/// identifier.
pub open spec fn decode_name(name: Seq<char>) -> Result<ItemView, TrashItemDecodingError> {
    if !contains_text(name, separator()) {
        Err(TrashItemDecodingError::InvalidFilenameFormat)
    } else {
        let at = last_separator(name);
        match base64url_bytes(name.subrange(at + 2, name.len() as int)) {
            None => Err(TrashItemDecodingError::BadlyEncodedId),
            Some(bytes) => match instant_of_id(bytes) {
                Err(reason) => Err(reason),
                Ok(nanos) => Ok(ItemView { filename: name.subrange(0, at), deleted_at: nanos }),
            },
        }
    }
}

/// Whether `decoded` is the outcome `expected`, up to the model of the item.
pub open spec fn decoded_as(
    decoded: Result<TrashItemInfos, TrashItemDecodingError>,
    expected: Result<ItemView, TrashItemDecodingError>,
) -> bool {
    match decoded {
        Ok(item) => expected == Ok::<ItemView, TrashItemDecodingError>(item@),
        Err(reason) => expected == Err::<ItemView, TrashItemDecodingError>(reason),
    }
}

/// A text has at most one right-most occurrence of another.
pub proof fn lemma_last_occurrence_unique(hay: Seq<char>, needle: Seq<char>, at: int)
    requires
        is_last_occurrence(hay, needle, at),
    ensures
        contains_text(hay, needle),
        forall|other: int| is_last_occurrence(hay, needle, other) ==> other == at,
{
    assert(occurs_at(hay, needle, at));
}

/// In an encoded name whose identifier holds only base64 symbols, the right-most
/// separator is the one that encoding wrote, whatever the file name holds.
pub proof fn lemma_separator_of_encoded_name(filename: Seq<char>, id: Seq<char>)
    requires
        forall|i: int| 0 <= i < id.len() ==> is_base64url_symbol(#[trigger] id[i]),
    ensures
        is_last_occurrence(filename + separator() + id, separator(), filename.len() as int),
        last_separator(filename + separator() + id) == filename.len(),
{
    let name = filename + separator() + id;
    let at = filename.len() as int;
    assert(separator().len() == 2 && separator()[0] == ' ' && separator()[1] == '^');
    assert(name.len() == at + 2 + id.len());
    assert(name[at] == ' ' && name[at + 1] == '^');
    assert(name.subrange(at, at + 2) =~= separator());
    assert forall|later: int| at < later implies !occurs_at(name, separator(), later) by {
        if 0 <= later && later + 2 <= name.len() {
            let k = later + 1 - at - 2;
            assert(name[later + 1] == id[k]);
            assert(is_base64url_symbol(id[k]));
            assert(name.subrange(later, later + 2)[1] == name[later + 1]);
        }
    }
    assert(is_last_occurrence(name, separator(), at));
    lemma_last_occurrence_unique(name, separator(), at);
}

/// Decoding what encoding wrote gives the file name and the instant back, exactly:
/// for every file name and every instant, provided that the base64 codec is
/// faithful on the instant's identifier bytes.
pub proof fn lemma_decode_encoded_name(item: ItemView)
    requires
        i128::MIN <= item.deleted_at <= i128::MAX,
        codec_faithful(id_bytes(item.deleted_at)),
    ensures
        decode_name(encoded_name(item)) == Ok::<ItemView, TrashItemDecodingError>(item),
{
    let id = id_text(item.deleted_at);
    let name = encoded_name(item);
    let at = item.filename.len() as int;
    lemma_separator_of_encoded_name(item.filename, id);
    lemma_id_bytes_round_trip(item.deleted_at as i128);
    assert(name.subrange(at + 2, name.len() as int) =~= id);
    assert(name.subrange(0, at) =~= item.filename);
}

/// Two different instants never get the same identifier, provided that the base64
/// codec is faithful on both.
pub proof fn lemma_identifiers_differ(first: i128, second: i128)
    requires
        first != second,
        codec_faithful(id_bytes(first as int)),
        codec_faithful(id_bytes(second as int)),
    ensures
        id_text(first as int) != id_text(second as int),
{
    lemma_id_bytes_round_trip(first);
    lemma_id_bytes_round_trip(second);
}

/// Two items with different instants never get the same on-disk name, provided
/// that the base64 codec is faithful on both identifiers.
pub proof fn lemma_encoded_names_distinct(first: ItemView, second: ItemView)
    requires
        i128::MIN <= first.deleted_at <= i128::MAX,
        i128::MIN <= second.deleted_at <= i128::MAX,
        codec_faithful(id_bytes(first.deleted_at)),
        codec_faithful(id_bytes(second.deleted_at)),
        first.deleted_at != second.deleted_at,
    ensures
        encoded_name(first) != encoded_name(second),
{
    lemma_decode_encoded_name(first);
    lemma_decode_encoded_name(second);
}

impl TrashItemInfos {
    /// An item with the given file name and deletion instant.
    pub fn new(filename: String, deleted_at: i128) -> (item: Self)
        ensures
            item.filename == filename,
            item.deleted_at == deleted_at,
    {
        Self { filename, deleted_at }
    }

    /// An item with the given file name, deleted now. `None` where the clock gives
    /// no civil time.
    pub fn new_now(filename: String) -> (item: Option<Self>)
        ensures
            item matches Some(made) ==> made.filename == filename,
    {
        let elapsed = civil_nanos_since(REFERENCE_YEAR, REFERENCE_MONTH, REFERENCE_DAY);
        Self::from_clock(filename, elapsed)
    }

    /// The item with the given file name that was deleted when the clock read
    /// `elapsed` nanoseconds since the reference epoch; none where the clock gave
    /// no reading.
    pub fn from_clock(filename: String, elapsed: Option<i128>) -> (item: Option<Self>)
        ensures
            match elapsed {
                Some(nanos) => item matches Some(made) && made.filename == filename
                    && made.deleted_at == nanos,
                None => item is None,
            },
    {
        match elapsed {
            Some(nanos) => Some(Self::new(filename, nanos)),
            None => None,
        }
    }

    /// The identifier of the item as text: two to twenty-two symbols of the
    /// URL-safe alphabet.
    pub fn compute_id(&self) -> (id: String)
        ensures
            id@ == id_text(self.deleted_at as int),
            id@.len() == base64url_len(id_bytes(self.deleted_at as int).len()),
            2 <= id@.len() <= 22,
            codec_faithful(id_bytes(self.deleted_at as int)),
    {
        let bytes = id_bytes_of(self.deleted_at);
        encode_base64url(&bytes)
    }

    /// The name of the item on disk. It decodes to this very item.
    pub fn trash_filename(&self) -> (name: String)
        ensures
            name@ == encoded_name(self@),
            decode_name(name@) == Ok::<ItemView, TrashItemDecodingError>(self@),
    {
        let id = self.compute_id();
        let mut name = self.filename.clone();
        name.append(NAME_ID_SEPARATOR);
        name.append(id.as_str());
        proof {
            reveal_strlit(" ^");
            assert(NAME_ID_SEPARATOR@ =~= separator());
            lemma_decode_encoded_name(self@);
        }
        name
    }

    /// The item whose file name is `filename` and whose identifier decoded to
    /// `bytes`: the bytes must be one to sixteen.
    pub fn from_id_bytes(filename: String, bytes: &Vec<u8>) -> (decoded: Result<
        TrashItemInfos,
        TrashItemDecodingError,
    >)
        ensures
            match decoded {
                Ok(item) => instant_of_id(bytes@) == Ok::<int, TrashItemDecodingError>(
                    item.deleted_at as int,
                ) && item.filename == filename,
                Err(reason) => instant_of_id(bytes@) == Err::<int, TrashItemDecodingError>(reason),
            },
    {
        if bytes.len() == 0 || bytes.len() > ID_WIDTH {
            return Err(TrashItemDecodingError::InvalidIdLength);
        }
        Ok(Self::new(filename, instant_of(bytes)))
    }

    /// Decodes an on-disk name into the item that it names.
    pub fn decode(trash_filename: &str) -> (decoded: Result<
        TrashItemInfos,
        TrashItemDecodingError,
    >)
        ensures
            decoded_as(decoded, decode_name(trash_filename@)),
    {
        let name = chars_of(trash_filename);
        let token = chars_of(NAME_ID_SEPARATOR);
        proof {
            reveal_strlit(" ^");
            assert(token@ =~= separator());
        }
        let at = match find_last(&name, &token) {
            Some(at) => at,
            None => {
                return Err(TrashItemDecodingError::InvalidFilenameFormat);
            },
        };
        proof {
            lemma_last_occurrence_unique(name@, separator(), at as int);
            assert(at + 2 <= name.len());
        }
        let id = trash_filename.substring_char(at + 2, name.len());
        let filename = trash_filename.substring_char(0, at);
        match decode_base64url(id) {
            Ok(bytes) => Self::from_id_bytes(String::from_str(filename), &bytes),
            Err(_) => Err(TrashItemDecodingError::BadlyEncodedId),
        }
    }
}

} // verus!
