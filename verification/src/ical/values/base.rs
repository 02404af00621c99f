//! The common shape of typed property values: a value together with its
//! source parameters, in optional and multiple cardinalities.

use vstd::prelude::*;

verus! {

/// One `NAME=VALUE` property parameter.
#[derive(Debug)]
pub struct Param {
    pub name: String,
    pub value: String,
}

impl Clone for Param {
    /// A clone keeps both the name and the value.
    fn clone(&self) -> (r: Self)
        ensures
            r.name@ == self.name@,
            r.value@ == self.value@,
    {
        Param { name: self.name.clone(), value: self.value.clone() }
    }
}

/// The parameters of one property, in document order.  Later entries with
/// the same name shadow earlier ones.
pub type ICalParameterMap = Vec<Param>;

/// Spec view of a parameter list: pairs of name and value.
pub open spec fn params_model(ps: Seq<Param>) -> Seq<(Seq<char>, Seq<char>)> {
    ps.map_values(|p: Param| (p.name@, p.value@))
}

/// The value of the last parameter with the given name, if any.
pub open spec fn param_lookup(ps: Seq<(Seq<char>, Seq<char>)>, name: Seq<char>) -> Option<
    Seq<char>,
>
    decreases ps.len(),
{
    if ps.len() == 0 {
        None
    } else if ps.last().0 == name {
        Some(ps.last().1)
    } else {
        param_lookup(ps.drop_last(), name)
    }
}

/// Finds the value of the last parameter with the given name.
pub fn param_get(ps: &ICalParameterMap, name: &str) -> (r: Option<String>)
    ensures
        match r {
            Some(v) => param_lookup(params_model(ps@), name@) == Some(v@),
            None => param_lookup(params_model(ps@), name@) is None,
        },
{
    let mut i: usize = ps.len();
    proof {
        assert(params_model(ps@).take(i as int) =~= params_model(ps@));
    }
    while i > 0
        invariant
            i <= ps.len(),
            param_lookup(params_model(ps@), name@) == param_lookup(
                params_model(ps@).take(i as int),
                name@,
            ),
        decreases i,
    {
        i = i - 1;
        proof {
            assert(params_model(ps@).take(i + 1).drop_last() =~= params_model(ps@).take(i as int));
            assert(params_model(ps@).take(i + 1).last() == (ps@[i as int].name@,
            ps@[i as int].value@));
        }
        if crate::strutil::str_eq(ps[i].name.as_str(), name) {
            return Some(ps[i].value.clone());
        }
    }
    proof {
        assert(params_model(ps@).take(0) =~= Seq::<(Seq<char>, Seq<char>)>::empty());
    }
    None
}

/// Why a raw value failed its type grammar.
#[derive(Clone, Copy, Debug, PartialEq, Eq, Structural)]
pub enum CodecError {
    /// Not a decimal integer in range.
    BadInteger,
    /// Not a valid `YYYYMMDD` calendar date.
    BadDate,
    /// Not a valid `YYYYMMDD"T"HHMMSS[Z]` datetime.
    BadDateTime,
    /// The `TZID` parameter names no known timezone, or the wall-clock
    /// time does not exist unambiguously in it.
    BadTimezone,
    /// Not a valid duration, or one whose total does not fit the model.
    BadDuration,
}

/// A typed scalar value: parsed from raw text under the property's
/// parameters, and serialized back to its canonical text.
pub trait ICalValueType: View + Sized {
    /// The parse grammar of this type, over the raw text and the property
    /// parameters.
    spec fn sp_parse(raw: Seq<char>, params: Seq<(Seq<char>, Seq<char>)>) -> Result<
        Self::V,
        CodecError,
    >;

    /// The canonical serialized text of a value.
    spec fn sp_canon(m: Self::V) -> Seq<char>;

    /// Parses raw text exactly as `sp_parse` describes.
    fn parse(value: &str, params: &ICalParameterMap) -> (r: Result<Self, CodecError>)
        ensures
            match r {
                Ok(v) => Self::sp_parse(value@, params_model(params@)) == Ok::<
                    Self::V,
                    CodecError,
                >(v@),
                Err(e) => Self::sp_parse(value@, params_model(params@)) == Err::<
                    Self::V,
                    CodecError,
                >(e),
            },
    ;

    /// Serializes to exactly the canonical text of `sp_canon`.
    fn serialize(&self) -> (r: String)
        ensures
            r@ == Self::sp_canon(self@),
    ;
}

/// A typed leaf value plus the parameters of the property that carried it.
#[derive(Debug)]
pub struct ICalValue<T: ICalValueType> {
    pub value: T,
    pub params: ICalParameterMap,
}

impl<T: ICalValueType> ICalValue<T> {
    /// Parses a raw value and keeps the parameters beside it.
    pub fn new(value: &str, params: ICalParameterMap) -> (r: Result<Self, CodecError>)
        ensures
            match r {
                Ok(v) => T::sp_parse(value@, params_model(params@)) == Ok::<T::V, CodecError>(
                    v.value@,
                ) && v.params@ == params@,
                Err(e) => T::sp_parse(value@, params_model(params@)) == Err::<T::V, CodecError>(e),
            },
    {
        match T::parse(value, &params) {
            Ok(value) => Ok(ICalValue { value, params }),
            Err(e) => Err(e),
        }
    }

    /// Replaces both the value and the parameters from raw text.
    pub fn set(&mut self, value: &str, params: ICalParameterMap) -> (r: Result<(), CodecError>)
        ensures
            match r {
                Ok(()) => T::sp_parse(value@, params_model(params@)) matches Ok(m)
                    && final(self).value@ == m && final(self).params@ == params@,
                Err(e) => T::sp_parse(value@, params_model(params@)) == Err::<T::V, CodecError>(e)
                    && final(self).value@ == old(self).value@
                    && final(self).params@ == old(self).params@,
            },
    {
        match T::parse(value, &params) {
            Ok(v) => {
                self.value = v;
                self.params = params;
                Ok(())
            },
            Err(e) => Err(e),
        }
    }

    /// The typed value itself.
    pub fn get_value(&self) -> (r: &T)
        ensures
            r@ == self.value@,
    {
        &self.value
    }
}

/// Zero or one typed value.
pub struct ICalOptional<T: ICalValueType>(pub Option<ICalValue<T>>);

impl<T: ICalValueType> ICalOptional<T> {
    /// Parses and stores a value, overwriting any prior one.
    pub fn set(&mut self, value: &str, params: ICalParameterMap) -> (r: Result<(), CodecError>)
        ensures
            match r {
                Ok(()) => T::sp_parse(value@, params_model(params@)) matches Ok(m)
                    && final(self).0 matches Some(v) && v.value@ == m && v.params@ == params@,
                Err(e) => T::sp_parse(value@, params_model(params@)) == Err::<T::V, CodecError>(e)
                    && *final(self) == *old(self),
            },
    {
        match ICalValue::new(value, params) {
            Ok(v) => {
                self.0 = Some(v);
                Ok(())
            },
            Err(e) => Err(e),
        }
    }

    /// The stored value, if present.
    pub fn get(&self) -> (r: Option<&ICalValue<T>>)
        ensures
            match r {
                Some(v) => self.0 matches Some(w) && v.value@ == w.value@ && v.params@ == w.params@,
                None => self.0 is None,
            },
    {
        match &self.0 {
            Some(value) => Some(value),
            None => None,
        }
    }

    /// The typed value alone, if present.
    pub fn get_value(&self) -> (r: Option<&T>)
        ensures
            match r {
                Some(v) => self.0 matches Some(w) && v@ == w.value@,
                None => self.0 is None,
            },
    {
        match &self.0 {
            Some(value) => Some(&value.value),
            None => None,
        }
    }

    /// An empty slot.
    pub fn empty() -> (r: Self)
        ensures
            r.0 is None,
    {
        ICalOptional(None)
    }
}

impl<T: ICalValueType> Default for ICalOptional<T> {
    fn default() -> (r: Self)
        ensures
            r.0 is None,
    {
        ICalOptional(None)
    }
}

/// An ordered sequence of typed values; document order is kept.
pub struct ICalMultiple<T: ICalValueType>(pub Vec<ICalValue<T>>);

impl<T: ICalValueType> ICalMultiple<T> {
    /// Parses a value and appends it, preserving order.
    pub fn add(&mut self, value: &str, params: ICalParameterMap) -> (r: Result<(), CodecError>)
        ensures
            match r {
                Ok(()) => T::sp_parse(value@, params_model(params@)) matches Ok(m)
                    && final(self).0@.len() == old(self).0@.len() + 1
                    && final(self).0@.last().value@ == m
                    && final(self).0@.last().params@ == params@
                    && final(self).0@.take(old(self).0@.len() as int) == old(self).0@,
                Err(e) => T::sp_parse(value@, params_model(params@)) == Err::<T::V, CodecError>(e)
                    && *final(self) == *old(self),
            },
    {
        match ICalValue::new(value, params) {
            Ok(v) => {
                self.0.push(v);
                proof {
                    assert(self.0@.take(self.0@.len() - 1) =~= old(self).0@);
                }
                Ok(())
            },
            Err(e) => Err(e),
        }
    }

    /// An empty list.
    pub fn empty() -> (r: Self)
        ensures
            r.0@.len() == 0,
    {
        ICalMultiple(Vec::new())
    }
}

impl<T: ICalValueType> Default for ICalMultiple<T> {
    fn default() -> (r: Self)
        ensures
            r.0@.len() == 0,
    {
        ICalMultiple(Vec::new())
    }
}

} // verus!
