//! The resident name table.
//!
//! The first string is the module name. The others are the names of exported
//! functions that have no explicit ordinal, or that were marked as resident.
//! Each string is followed by a word that refers to a member of the entry
//! table, counted from 1; the word after the module name is 0.

use vstd::prelude::*;
use vstd::slice::slice_to_vec;
use crate::error::DecodeError;
use crate::ne::names::{spec_name_record, spec_name_table, NameRecord};
use crate::util::reader::{
    lemma_prepend_empty, lemma_prepend_twice, prepend, reads_as, result_view, ByteReader,
};

verus! {

/// One record of the resident name table.
#[derive(Debug, Clone, PartialEq, Eq)]
pub struct ResidentNameEntry {
    pub name: Vec<u8>,
    pub index: u16,
}

/// The resident name table.
#[derive(Debug, Clone, PartialEq, Eq)]
pub struct ResidentNameTable {
    pub entries: Vec<ResidentNameEntry>,
}

impl View for ResidentNameEntry {
    type V = NameRecord;

    open spec fn view(&self) -> NameRecord {
        NameRecord { name: self.name@, index: self.index }
    }
}

impl View for ResidentNameTable {
    type V = Seq<NameRecord>;

    open spec fn view(&self) -> Seq<NameRecord> {
        self.entries@.map_values(|e: ResidentNameEntry| e@)
    }
}

impl ResidentNameEntry {
    /// The outcome of reading one record, with the record taken by its view.
    pub open spec fn spec_outcome(res: Result<Option<Self>, DecodeError>) -> Result<
        Option<NameRecord>,
        DecodeError,
    > {
        match res {
            Ok(Some(entry)) => Ok(Some(entry@)),
            Ok(None) => Ok(None),
            Err(e) => Err(e),
        }
    }

    /// Reads one record; gives nothing at the zero byte that ends the table.
    pub fn read(r: &mut ByteReader) -> (res: Result<Option<Self>, DecodeError>)
        ensures
            reads_as(
                *old(r),
                *final(r),
                Self::spec_outcome(res),
                spec_name_record(old(r).data@, old(r).at()),
            ),
    {
        let mut cur = *r;
        let len = cur.read_u8()?;
        if len == 0 {
            *r = cur;
            return Ok(None);
        }
        if cur.remaining() < len as usize + 2 {
            return Err(DecodeError::TruncatedInput);
        }
        let name = slice_to_vec(cur.take(len as usize)?);
        let index = cur.read_u16()?;
        *r = cur;
        Ok(Some(Self { name, index }))
    }
}

impl ResidentNameTable {
    /// Reads records up to the zero byte that ends the table.
    pub fn read(r: &mut ByteReader) -> (res: Result<Self, DecodeError>)
        ensures
            reads_as(
                *old(r),
                *final(r),
                result_view(res),
                spec_name_table(old(r).data@, old(r).at()),
            ),
    {
        let ghost data = r.data@;
        let ghost goal = spec_name_table(data, r.at());
        let mut cur = *r;
        let mut entries: Vec<ResidentNameEntry> = Vec::new();
        let mut more = true;
        proof {
            lemma_prepend_empty(Seq::<NameRecord>::empty(), goal, 0);
            assert(entries@.map_values(|e: ResidentNameEntry| e@) =~= Seq::<NameRecord>::empty());
        }
        while more
            invariant
                *r == *old(r),
                cur.data == r.data,
                data == r.data@,
                goal == spec_name_table(data, old(r).at()),
                more ==> goal == prepend(
                    entries@.map_values(|e: ResidentNameEntry| e@),
                    spec_name_table(data, cur.at()),
                ),
                !more ==> goal == Ok::<(Seq<NameRecord>, int), DecodeError>(
                    (entries@.map_values(|e: ResidentNameEntry| e@), cur.at()),
                ),
            decreases
                    (if more {
                        1int
                    } else {
                        0int
                    }),
                    data.len() - cur.at(),
        {
            let ghost before = entries@.map_values(|e: ResidentNameEntry| e@);
            match ResidentNameEntry::read(&mut cur)? {
                Some(entry) => {
                    proof {
                        lemma_prepend_twice(before, seq![entry@], spec_name_table(data, cur.at()));
                        assert(entries@.push(entry).map_values(|e: ResidentNameEntry| e@) =~= before
                            + seq![entry@]);
                    }
                    entries.push(entry);
                },
                None => {
                    proof {
                        lemma_prepend_empty(before, goal, cur.at());
                    }
                    more = false;
                },
            }
        }
        *r = cur;
        Ok(Self { entries })
    }
}

} // verus!
