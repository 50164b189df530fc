use vstd::prelude::*;
use vstd::string::StrSliceExecFns;
use crate::error::ErrorKind;

verus! {

// ---------------------------------------------------------------------------
// The slate document, as far as the relay reads it
// ---------------------------------------------------------------------------

/// The fields of a slate document that the relay layer reads; the document
/// itself stays an opaque payload owned by the wallet engine.
pub struct SlateView {
    pub id: Seq<char>,
    pub amount: u64,
    pub num_participants: u64,
    pub participant_count: u64,
}

/// What the wallet engine's slate parser extracts from a document, named;
/// the document format is owned by the engine, not stated here.
pub uninterp spec fn spec_slate(s: Seq<u8>) -> Option<SlateView>;

/// Relies on serde_json::from_slice: one deterministic parse of the slate
/// document, of which only the fields the relay needs are kept.
#[verifier::external_body]
fn parse_slate_raw(s: &Vec<u8>) -> (r: Option<(String, u64, u64, u64)>)
    ensures
        match r {
            Some(t) => spec_slate(s@) == Some(SlateView {
                id: t.0@,
                amount: t.1,
                num_participants: t.2,
                participant_count: t.3,
            }),
            None => spec_slate(s@) is None,
        },
{
    let v: serde_json::Value = serde_json::from_slice(s.as_slice()).ok()?;
    let id = v.get("id")?.as_str()?.to_string();
    let amount = v.get("amount")?.as_u64()?;
    let num_participants = v.get("num_participants")?.as_u64()?;
    let participant_count = v.get("participant_data")?.as_array()?.len() as u64;
    Some((id, amount, num_participants, participant_count))
}

/// One partial-transaction document in flight, with the fields the relay
/// reads beside the exact document text it came from.
#[derive(Clone, Debug)]
pub struct Slate {
    pub id: String,
    pub amount: u64,
    pub num_participants: u64,
    pub participant_count: u64,
    pub raw: Vec<u8>,
}

impl Slate {
    /// The fields of this slate, as the engine's parser reads them.
    pub open spec fn fields(&self) -> SlateView {
        SlateView {
            id: self.id@,
            amount: self.amount,
            num_participants: self.num_participants,
            participant_count: self.participant_count,
        }
    }

    /// A well-formed slate carries exactly what its document parses to.
    pub open spec fn wf(&self) -> bool {
        spec_slate(self.raw@) == Some(self.fields())
    }

    /// Reads a slate document, keeping the exact bytes beside the parsed
    /// fields; accepts exactly what the engine's parser accepts.
    pub fn parse(s: Vec<u8>) -> (r: Result<Slate, ErrorKind>)
        ensures
            match r {
                Ok(sl) => sl.wf() && sl.raw@ == s@ && spec_slate(s@) == Some(sl.fields()),
                Err(e) => spec_slate(s@) is None
                    && e matches ErrorKind::TxProofParseSlate(_),
            },
    {
        match parse_slate_raw(&s) {
            Some(t) => {
                let (id, amount, num_participants, participant_count) = t;
                Ok(Slate { id, amount, num_participants, participant_count, raw: s })
            },
            None => Err(ErrorKind::TxProofParseSlate(String::from_str(
                "not a slate document",
            ))),
        }
    }
}

} // verus!
