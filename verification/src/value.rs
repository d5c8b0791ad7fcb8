//! A typed value: the closed union of the three containers that can live
//! under one key, with checked accessors for each variant.

use vstd::prelude::*;
use vstd::string::{StrSliceExecFns, StringSliceAdditionalSpecFns};

use crate::list::List;
use crate::members::{set_view, SetMembers};
use crate::strings::Strings;

verus! {

/// The error returned when a command targets a key whose stored variant
/// does not match the variant the command needs.
#[derive(Debug)]
pub struct TypeError;

impl TypeError {
    /// The standard wire text for a type mismatch.
    pub fn message(&self) -> (r: Vec<u8>)
        ensures
            r@ == spec_wrongtype_message(),
    {
        "WRONGTYPE Operation against a key holding the wrong kind of value".as_bytes_vec()
    }
}

/// The standard wire text for a type mismatch.
pub open spec fn spec_wrongtype_message() -> Seq<u8> {
    "WRONGTYPE Operation against a key holding the wrong kind of value".spec_bytes()
}

/// The stored container, one variant per value type.
pub enum Item {
    List(List),
    String(Strings),
    Sets(SetMembers),
}

/// The mathematical content of a stored value.
pub enum ValueModel {
    Str(Seq<u8>),
    ListV(Seq<Seq<u8>>),
    SetV(Set<Seq<u8>>),
}

/// A typed value stored under one key.
pub struct Value {
    item: Item,
}

impl Value {
    /// The value's mathematical content.
    pub closed spec fn view(&self) -> ValueModel {
        match self.item {
            Item::String(ref s) => ValueModel::Str(s@),
            Item::List(ref l) => ValueModel::ListV(l@),
            Item::Sets(ref s) => ValueModel::SetV(set_view(*s)),
        }
    }

    /// Internal soundness of the value: a set variant holds finitely many
    /// members.
    pub closed spec fn inv(&self) -> bool {
        match self.item {
            Item::Sets(ref s) => set_view(*s).finite(),
            _ => true,
        }
    }

    /// Wrap a string container.
    pub fn new_string(value: Strings) -> (r: Value)
        ensures
            r@ == ValueModel::Str(value@),
            r.inv(),
    {
        Value { item: Item::String(value) }
    }

    /// Wrap a list container.
    pub fn new_list(value: List) -> (r: Value)
        ensures
            r@ == ValueModel::ListV(value@),
            r.inv(),
    {
        Value { item: Item::List(value) }
    }

    /// Wrap a set container.
    pub fn new_set(value: SetMembers) -> (r: Value)
        requires
            set_view(value).finite(),
        ensures
            r@ == ValueModel::SetV(set_view(value)),
            r.inv(),
    {
        Value { item: Item::Sets(value) }
    }

    /// The string container, or a type error.
    pub fn with_string(&self) -> (r: Result<&Strings, TypeError>)
        ensures
            match r {
                Ok(s) => self@ == ValueModel::Str(s@),
                Err(_) => !(self@ is Str),
            },
    {
        if let Item::String(ref value) = self.item {
            Ok(value)
        } else {
            Err(TypeError)
        }
    }

    /// The list container, or a type error.
    pub fn with_list(&self) -> (r: Result<&List, TypeError>)
        ensures
            match r {
                Ok(l) => self@ == ValueModel::ListV(l@),
                Err(_) => !(self@ is ListV),
            },
    {
        if let Item::List(ref list) = self.item {
            Ok(list)
        } else {
            Err(TypeError)
        }
    }

    /// The set container, or a type error.
    pub fn with_set(&self) -> (r: Result<&SetMembers, TypeError>)
        ensures
            match r {
                Ok(s) => self@ == ValueModel::SetV(set_view(*s)) && (self.inv() ==> set_view(
                    *s,
                ).finite()),
                Err(_) => !(self@ is SetV),
            },
    {
        if let Item::Sets(ref set) = self.item {
            Ok(set)
        } else {
            Err(TypeError)
        }
    }

    /// Take the value apart into its container.
    pub fn into_item(self) -> (r: Item)
        ensures
            match r {
                Item::String(s) => self@ == ValueModel::Str(s@),
                Item::List(l) => self@ == ValueModel::ListV(l@),
                Item::Sets(s) => self@ == ValueModel::SetV(set_view(s)) && (self.inv()
                    ==> set_view(s).finite()),
            },
    {
        self.item
    }

    /// Replace the container with a string.
    pub fn set_string(&mut self, value: Strings)
        ensures
            final(self)@ == ValueModel::Str(value@),
            final(self).inv(),
    {
        self.item = Item::String(value);
    }

    /// Replace the container with a list.
    pub fn set_list(&mut self, value: List)
        ensures
            final(self)@ == ValueModel::ListV(value@),
            final(self).inv(),
    {
        self.item = Item::List(value);
    }

    /// Replace the container with a set.
    pub fn set_sets(&mut self, value: SetMembers)
        requires
            set_view(value).finite(),
        ensures
            final(self)@ == ValueModel::SetV(set_view(value)),
            final(self).inv(),
    {
        self.item = Item::Sets(value)
    }
}

} // verus!
