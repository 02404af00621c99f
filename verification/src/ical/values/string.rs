//! Text values: parsing is the identity and so is serialization.

use vstd::prelude::*;

verus! {

use crate::ical::values::base::{CodecError, ICalValueType, ICalParameterMap};

pub type ICalString = String;

impl ICalValueType for ICalString {
    open spec fn sp_parse(raw: Seq<char>, params: Seq<(Seq<char>, Seq<char>)>) -> Result<
        Seq<char>,
        CodecError,
    > {
        Ok(raw)
    }

    open spec fn sp_canon(m: Seq<char>) -> Seq<char> {
        m
    }

    fn parse(value: &str, params: &ICalParameterMap) -> (r: Result<Self, CodecError>) {
        Ok(value.to_owned())
    }

    fn serialize(&self) -> (r: String) {
        self.clone()
    }
}

} // verus!
