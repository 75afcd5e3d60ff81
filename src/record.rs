use vstd::prelude::*;

verus! {

/// Whether serde_json reads `text`, as a whole, as one JSON object.
pub uninterp spec fn is_json_object(text: Seq<char>) -> bool;

/// serde_json's error type, carried by decode errors.
#[verifier::external_type_specification]
#[verifier::external_body]
pub struct ExJsonError(serde_json::Error);

/// Relies on serde_json::from_str, reading into serde_json::Map: it succeeds
/// exactly when the text is one JSON object, and depends on the text alone.
#[verifier::external_body]
fn parse_object(text: &str) -> (r: Result<(), serde_json::Error>)
    ensures
        r is Ok <==> is_json_object(text@),
{
    match serde_json::from_str::<serde_json::Map<String, serde_json::Value>>(text) {
        Ok(_) => Ok(()),
        Err(e) => Err(e),
    }
}

/// What can go wrong when a record is read back.
#[derive(Debug)]
pub enum RecordError {
    /// The stored text is not the JSON object of a record; never confused
    /// with an empty slot.
    Decode(serde_json::Error),
}

/// A user record in serialized form: the text of one JSON object.
pub struct Record {
    text: String,
}

impl View for Record {
    type V = Seq<char>;

    closed spec fn view(&self) -> Seq<char> {
        self.text@
    }
}

impl Record {
    #[verifier::type_invariant]
    spec fn inv(&self) -> bool {
        is_json_object(self.text@)
    }

    /// Takes `text` as a record where it is one JSON object.
    pub fn from_json(text: String) -> (r: Result<Record, RecordError>)
        ensures
            r is Ok <==> is_json_object(text@),
            r matches Ok(rec) ==> rec@ == text@,
    {
        match parse_object(text.as_str()) {
            Ok(()) => Ok(Record { text }),
            Err(e) => Err(RecordError::Decode(e)),
        }
    }

    /// The record's JSON text.
    pub fn as_json(&self) -> (r: &str)
        ensures
            r@ == self@,
            is_json_object(r@),
    {
        proof {
            use_type_invariant(self);
        }
        self.text.as_str()
    }

    /// A copy of the record's JSON text.
    pub fn to_json(&self) -> (r: String)
        ensures
            r@ == self@,
            is_json_object(r@),
    {
        proof {
            use_type_invariant(self);
        }
        self.text.clone()
    }
}

} // verus!
