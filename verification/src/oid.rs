use vstd::prelude::*;
use vstd::string::*;

verus! {

/// The identity of a blob, tree or commit: its content hash, held as the
/// lower-case hexadecimal text by which it is printed and looked up.
///
/// Two objects have the same content exactly when their ids are equal; the
/// engine never compares content any other way.
#[derive(Debug, PartialEq, Eq)]
pub struct ObjectId {
    pub hex: String,
}

impl View for ObjectId {
    type V = Seq<char>;

    open spec fn view(&self) -> Seq<char> {
        self.hex@
    }
}

impl Clone for ObjectId {
    fn clone(&self) -> (r: Self)
        ensures
            r@ == self@,
    {
        ObjectId { hex: self.hex.clone() }
    }
}

/// The text of the id that stands for "no object".
pub open spec fn zero_hex() -> Seq<char> {
    Seq::new(40, |i: int| '0')
}

impl ObjectId {
    pub fn new(hex: &str) -> (r: ObjectId)
        ensures
            r@ == hex@,
    {
        ObjectId { hex: hex.to_owned() }
    }

    /// The id made of zeros only, which no object has.
    pub fn zero() -> (r: ObjectId)
        ensures
            r@ == zero_hex(),
    {
        let hex = "0000000000000000000000000000000000000000";
        proof {
            reveal_strlit("0000000000000000000000000000000000000000");
            assert(hex@ =~= zero_hex());
        }
        ObjectId { hex: hex.to_owned() }
    }

    pub fn as_str(&self) -> (r: &str)
        ensures
            r@ == self@,
    {
        self.hex.as_str()
    }

    /// Whether two ids name the same object.
    pub fn same(&self, other: &ObjectId) -> (r: bool)
        ensures
            r == (self@ == other@),
    {
        self.hex == other.hex
    }
}

/// The text of an optional id.
pub open spec fn id_text(id: Option<ObjectId>) -> Option<Seq<char>> {
    match id {
        Some(id) => Some(id@),
        None => None,
    }
}

} // verus!
