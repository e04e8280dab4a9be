//! The cross-reference context of one asset: the names of its nodes, lights
//! and sounds, each found by its index and the index by the name.
//!
//! The tables are filled once, from the asset's own declarations, before any
//! record that refers to them is decoded or encoded.  An index is a position
//! in its table, counted from 0, and never changes.

use crate::error::{Detail, Error, Result};
use vstd::prelude::*;

verus! {

/// The name tables of one asset.
#[derive(Clone, Debug, PartialEq, Eq)]
pub struct AnimDef {
    pub nodes: Vec<String>,
    pub lights: Vec<String>,
    pub sounds: Vec<String>,
}

/// The name tables as sequences of texts.
pub struct AnimDefView {
    pub nodes: Seq<Seq<char>>,
    pub lights: Seq<Seq<char>>,
    pub sounds: Seq<Seq<char>>,
}

/// The texts of a table.
pub open spec fn names(table: Seq<String>) -> Seq<Seq<char>> {
    Seq::new(table.len(), |i: int| table[i]@)
}

impl View for AnimDef {
    type V = AnimDefView;

    open spec fn view(&self) -> AnimDefView {
        AnimDefView {
            nodes: names(self.nodes@),
            lights: names(self.lights@),
            sounds: names(self.sounds@),
        }
    }
}

/// The name at `index` of `table`; an index outside the table is a failure at
/// `offset`, where the index was read.
pub open spec fn name_from_index(
    table: Seq<Seq<char>>,
    label: &'static str,
    index: int,
    offset: int,
) -> core::result::Result<Seq<char>, Error> {
    if 0 <= index < table.len() {
        Ok(table[index])
    } else {
        Err(Error::Assertion { label, offset: offset as u32, detail: Detail::Condition })
    }
}

/// The first index at which `table` holds `name`; a name that the table does
/// not hold is a failure.
pub open spec fn index_from_name(table: Seq<Seq<char>>, label: &'static str, name: Seq<char>)
    -> core::result::Result<int, Error> {
    match table.index_of_first(name) {
        Some(index) => Ok(index),
        None => Err(Error::Assertion { label, offset: 0, detail: Detail::Condition }),
    }
}

/// Looking a name up by the index that was found for it gives the name
/// back, for every name that the table holds; a name that it does not hold,
/// and an index outside it, fail.
pub proof fn lemma_index_identity(
    table: Seq<Seq<char>>,
    name: Seq<char>,
    index: int,
    name_label: &'static str,
    index_label: &'static str,
    offset: int,
)
    ensures
        table.contains(name) ==> index_from_name(table, name_label, name) is Ok,
        index_from_name(table, name_label, name) matches Ok(i) ==> 0 <= i < table.len()
            && name_from_index(table, index_label, i, offset) == Ok::<Seq<char>, Error>(name),
        !table.contains(name) ==> index_from_name(table, name_label, name) is Err,
        !(0 <= index < table.len()) ==> name_from_index(table, index_label, index, offset) is Err,
{
    table.index_of_first_ensures(name);
}

fn from_index(table: &Vec<String>, label: &'static str, index: usize, offset: u32) -> (r: Result<
    String,
>)
    ensures
        crate::error::view_ok(r) == name_from_index(
            names(table@),
            label,
            index as int,
            offset as int,
        ),
{
    if index < table.len() {
        Ok(table[index].clone())
    } else {
        Err(Error::Assertion { label, offset, detail: Detail::Condition })
    }
}

fn to_index(table: &Vec<String>, label: &'static str, name: &String) -> (r: Result<usize>)
    ensures
        r matches Ok(i) ==> index_from_name(names(table@), label, name@) == Ok::<int, Error>(
            i as int,
        ),
        r matches Err(e) ==> index_from_name(names(table@), label, name@) == Err::<int, Error>(e),
{
    let mut i: usize = 0;
    while i < table.len()
        invariant
            i <= table@.len(),
            forall|j: int| 0 <= j < i ==> names(table@)[j] != name@,
        decreases table@.len() - i,
    {
        if table[i] == *name {
            proof {
                names(table@).index_of_first_ensures(name@);
                assert(names(table@)[i as int] == name@);
            }
            return Ok(i);
        }
        i = i + 1;
    }
    proof {
        names(table@).index_of_first_ensures(name@);
    }
    Err(Error::Assertion { label, offset: 0, detail: Detail::Condition })
}

impl AnimDef {
    pub fn node_from_index(&self, index: usize, offset: u32) -> (r: Result<String>)
        ensures
            crate::error::view_ok(r) == name_from_index(
                self@.nodes,
                "node index",
                index as int,
                offset as int,
            ),
    {
        from_index(&self.nodes, "node index", index, offset)
    }

    pub fn node_to_index(&self, name: &String) -> (r: Result<usize>)
        ensures
            r matches Ok(i) ==> index_from_name(self@.nodes, "node name", name@) == Ok::<
                int,
                Error,
            >(i as int),
            r matches Err(e) ==> index_from_name(self@.nodes, "node name", name@) == Err::<
                int,
                Error,
            >(e),
    {
        to_index(&self.nodes, "node name", name)
    }

    pub fn light_from_index(&self, index: usize, offset: u32) -> (r: Result<String>)
        ensures
            crate::error::view_ok(r) == name_from_index(
                self@.lights,
                "light index",
                index as int,
                offset as int,
            ),
    {
        from_index(&self.lights, "light index", index, offset)
    }

    pub fn light_to_index(&self, name: &String) -> (r: Result<usize>)
        ensures
            r matches Ok(i) ==> index_from_name(self@.lights, "light name", name@) == Ok::<
                int,
                Error,
            >(i as int),
            r matches Err(e) ==> index_from_name(self@.lights, "light name", name@) == Err::<
                int,
                Error,
            >(e),
    {
        to_index(&self.lights, "light name", name)
    }

    pub fn sound_from_index(&self, index: usize, offset: u32) -> (r: Result<String>)
        ensures
            crate::error::view_ok(r) == name_from_index(
                self@.sounds,
                "sound index",
                index as int,
                offset as int,
            ),
    {
        from_index(&self.sounds, "sound index", index, offset)
    }

    pub fn sound_to_index(&self, name: &String) -> (r: Result<usize>)
        ensures
            r matches Ok(i) ==> index_from_name(self@.sounds, "sound name", name@) == Ok::<
                int,
                Error,
            >(i as int),
            r matches Err(e) ==> index_from_name(self@.sounds, "sound name", name@) == Err::<
                int,
                Error,
            >(e),
    {
        to_index(&self.sounds, "sound name", name)
    }
}

} // verus!
