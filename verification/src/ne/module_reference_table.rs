//! The module-reference table: the modules that this one imports from.
//!
//! The table itself holds one 16-bit offset per module. The offset leads into
//! the imported-names table, where the name stands as a length byte and that
//! many bytes. Names are therefore resolved in a second pass, once the place of
//! the imported-names table is known.

use vstd::prelude::*;
use vstd::slice::slice_to_vec;
use crate::error::DecodeError;
use crate::util::endian::le16;
use crate::util::reader::{
    lemma_prepend_empty, lemma_prepend_twice, prepend, reads_as, result_view, ByteReader,
};

verus! {

/// What the table stores for a module: where its name is.
#[derive(Debug, Clone, Copy, PartialEq, Eq)]
pub struct ModuleReferenceEntryHeader {
    pub offset: u16,
}

/// A referenced module. The name is empty until it is resolved.
#[derive(Debug, Clone, PartialEq, Eq)]
pub struct ModuleReferenceEntry {
    pub header: ModuleReferenceEntryHeader,
    pub name: Vec<u8>,
}

/// The module-reference table.
#[derive(Debug, Clone, PartialEq, Eq)]
pub struct ModuleReferenceTable {
    pub entries: Vec<ModuleReferenceEntry>,
}

/// A referenced module as a mathematical value.
pub struct ModuleReference {
    pub header: ModuleReferenceEntryHeader,
    pub name: Seq<u8>,
}

impl View for ModuleReferenceEntry {
    type V = ModuleReference;

    open spec fn view(&self) -> ModuleReference {
        ModuleReference { header: self.header, name: self.name@ }
    }
}

impl View for ModuleReferenceTable {
    type V = Seq<ModuleReference>;

    open spec fn view(&self) -> Seq<ModuleReference> {
        self.entries@.map_values(|e: ModuleReferenceEntry| e@)
    }
}

impl ModuleReferenceEntryHeader {
    /// What reading the two-byte record at `pos` gives.
    pub open spec fn spec_read(data: Seq<u8>, pos: int) -> Result<
        (ModuleReferenceEntryHeader, int),
        DecodeError,
    > {
        if 0 <= pos && pos + 2 <= data.len() {
            Ok((ModuleReferenceEntryHeader { offset: le16(data, pos) }, pos + 2))
        } else {
            Err(DecodeError::TruncatedInput)
        }
    }

    /// Reads the offset of a module's name.
    pub fn read(r: &mut ByteReader) -> (res: Result<Self, DecodeError>)
        ensures
            reads_as(*old(r), *final(r), res, Self::spec_read(old(r).data@, old(r).at())),
    {
        let offset = r.read_u16()?;
        Ok(Self { offset })
    }
}

impl ModuleReferenceEntry {
    /// What reading an entry at `pos` gives: the stored offset, and no name yet.
    pub open spec fn spec_read(data: Seq<u8>, pos: int) -> Result<
        (ModuleReference, int),
        DecodeError,
    > {
        match ModuleReferenceEntryHeader::spec_read(data, pos) {
            Ok((header, end)) => Ok((ModuleReference { header, name: Seq::empty() }, end)),
            Err(e) => Err(e),
        }
    }

    /// The name that stands at `at`: a length byte and that many bytes. Also the
    /// offset after the name.
    pub open spec fn spec_name(data: Seq<u8>, at: int) -> Result<(Seq<u8>, int), DecodeError> {
        if !(0 <= at < data.len()) {
            Err(DecodeError::TruncatedInput)
        } else if at + 1 + data[at] > data.len() {
            Err(DecodeError::TruncatedInput)
        } else {
            Ok((data.subrange(at + 1, at + 1 + data[at]), at + 1 + data[at]))
        }
    }

    /// Reads an entry of the table. Its name is left empty.
    pub fn read(r: &mut ByteReader) -> (res: Result<Self, DecodeError>)
        ensures
            reads_as(
                *old(r),
                *final(r),
                result_view(res),
                Self::spec_read(old(r).data@, old(r).at()),
            ),
    {
        Ok(Self { header: ModuleReferenceEntryHeader::read(r)?, name: Vec::new() })
    }

    /// Resolves the name: it stands `self.header.offset` bytes into the
    /// imported-names table, which begins at `offset`.
    ///
    /// On success the reader is left after the name. On failure neither the
    /// entry nor the reader is changed.
    pub fn read_name(&mut self, r: &mut ByteReader, offset: u64) -> (res: Result<(), DecodeError>)
        ensures
            final(r).data == old(r).data,
            final(self).header == old(self).header,
            match Self::spec_name(old(r).data@, offset + old(self).header.offset) {
                Ok((name, end)) => {
                    &&& res == Ok::<(), DecodeError>(())
                    &&& final(self).name@ == name
                    &&& final(r).pos == end
                },
                Err(e) => {
                    &&& res == Err::<(), DecodeError>(e)
                    &&& *final(self) == *old(self)
                    &&& *final(r) == *old(r)
                },
            },
    {
        let mut cur = *r;
        let size: u64 = cur.len() as u64;
        let at: u64 = match offset.checked_add(self.header.offset as u64) {
            Some(at) => at,
            None => {
                return Err(DecodeError::TruncatedInput);
            },
        };
        if at >= size {
            return Err(DecodeError::TruncatedInput);
        }
        cur.seek(at);
        let len = cur.read_u8()?;
        let name = slice_to_vec(cur.take(len as usize)?);
        self.name = name;
        *r = cur;
        Ok(())
    }
}

impl ModuleReferenceTable {
    /// The `num` entries at `pos`, their names not yet resolved.
    pub open spec fn spec_read(data: Seq<u8>, pos: int, num: int) -> Result<
        (Seq<ModuleReference>, int),
        DecodeError,
    >
        decreases num,
    {
        if num <= 0 {
            Ok((Seq::empty(), pos))
        } else {
            match ModuleReferenceEntry::spec_read(data, pos) {
                Err(e) => Err(e),
                Ok((entry, end)) => prepend(seq![entry], Self::spec_read(data, end, num - 1)),
            }
        }
    }

    /// The entries from index `from` on with their names resolved against the
    /// imported-names table at `offset`, in order, up to the first name that
    /// cannot be read. `pos` is where the reader stands before them; it ends up
    /// after the name read last.
    pub open spec fn spec_read_names(
        data: Seq<u8>,
        entries: Seq<ModuleReference>,
        offset: int,
        from: int,
        pos: int,
    ) -> Result<(Seq<ModuleReference>, int), DecodeError>
        decreases entries.len() - from,
    {
        if from < 0 || from >= entries.len() {
            Ok((Seq::empty(), pos))
        } else {
            match ModuleReferenceEntry::spec_name(data, offset + entries[from].header.offset) {
                Err(e) => Err(e),
                Ok((name, end)) => prepend(
                    seq![ModuleReference { header: entries[from].header, name }],
                    Self::spec_read_names(data, entries, offset, from + 1, end),
                ),
            }
        }
    }

    /// Reads the `num` entries of the table. Their names are left empty.
    pub fn read(r: &mut ByteReader, num: u16) -> (res: Result<Self, DecodeError>)
        ensures
            reads_as(
                *old(r),
                *final(r),
                result_view(res),
                Self::spec_read(old(r).data@, old(r).at(), num as int),
            ),
    {
        let ghost data = r.data@;
        let ghost goal = Self::spec_read(data, r.at(), num as int);
        let mut cur = *r;
        let mut entries: Vec<ModuleReferenceEntry> = Vec::new();
        let mut done: u16 = 0;
        proof {
            lemma_prepend_empty(Seq::<ModuleReference>::empty(), goal, 0);
            assert(entries@.map_values(|e: ModuleReferenceEntry| e@) =~= Seq::<
                ModuleReference,
            >::empty());
        }
        while done < num
            invariant
                *r == *old(r),
                cur.data == r.data,
                data == r.data@,
                done <= num,
                goal == Self::spec_read(data, old(r).at(), num as int),
                goal == prepend(
                    entries@.map_values(|e: ModuleReferenceEntry| e@),
                    Self::spec_read(data, cur.at(), num - done),
                ),
            decreases num - done,
        {
            let ghost before = entries@.map_values(|e: ModuleReferenceEntry| e@);
            let entry = ModuleReferenceEntry::read(&mut cur)?;
            proof {
                lemma_prepend_twice(
                    before,
                    seq![entry@],
                    Self::spec_read(data, cur.at(), num - done - 1),
                );
                assert(entries@.push(entry).map_values(|e: ModuleReferenceEntry| e@) =~= before
                    + seq![entry@]);
            }
            entries.push(entry);
            done += 1;
        }
        proof {
            lemma_prepend_empty(entries@.map_values(|e: ModuleReferenceEntry| e@), goal, cur.at());
        }
        *r = cur;
        Ok(Self { entries })
    }

    /// Resolves the names of all entries against the imported-names table at `offset`.
    ///
    /// On success every entry has its name and the reader is left after the
    /// name of the last entry. On failure neither the table nor the reader is
    /// changed.
    pub fn read_names(&mut self, r: &mut ByteReader, offset: u64) -> (res: Result<(), DecodeError>)
        ensures
            final(r).data == old(r).data,
            match Self::spec_read_names(old(r).data@, old(self)@, offset as int, 0, old(r).at()) {
                Ok((resolved, end)) => {
                    &&& res == Ok::<(), DecodeError>(())
                    &&& final(self)@ == resolved
                    &&& final(r).pos == end
                },
                Err(e) => {
                    &&& res == Err::<(), DecodeError>(e)
                    &&& *final(self) == *old(self)
                    &&& *final(r) == *old(r)
                },
            },
    {
        let ghost data = r.data@;
        let ghost unresolved = self@;
        let ghost goal = Self::spec_read_names(data, unresolved, offset as int, 0, r.at());
        let mut cur = *r;
        let mut resolved: Vec<ModuleReferenceEntry> = Vec::new();
        let mut i: usize = 0;
        proof {
            lemma_prepend_empty(Seq::<ModuleReference>::empty(), goal, 0);
            assert(resolved@.map_values(|e: ModuleReferenceEntry| e@) =~= Seq::<
                ModuleReference,
            >::empty());
        }
        while i < self.entries.len()
            invariant
                *r == *old(r),
                *self == *old(self),
                unresolved == self@,
                cur.data == r.data,
                data == r.data@,
                i <= self.entries@.len(),
                goal == Self::spec_read_names(data, unresolved, offset as int, 0, old(r).at()),
                goal == prepend(
                    resolved@.map_values(|e: ModuleReferenceEntry| e@),
                    Self::spec_read_names(data, unresolved, offset as int, i as int, cur.at()),
                ),
            decreases self.entries@.len() - i,
        {
            let ghost before = resolved@.map_values(|e: ModuleReferenceEntry| e@);
            let mut entry = ModuleReferenceEntry { header: self.entries[i].header, name: Vec::new() };
            assert(unresolved[i as int].header == self.entries@[i as int].header);
            entry.read_name(&mut cur, offset)?;
            proof {
                lemma_prepend_twice(
                    before,
                    seq![entry@],
                    Self::spec_read_names(data, unresolved, offset as int, i + 1, cur.at()),
                );
                assert(resolved@.push(entry).map_values(|e: ModuleReferenceEntry| e@) =~= before
                    + seq![entry@]);
            }
            resolved.push(entry);
            i += 1;
        }
        proof {
            lemma_prepend_empty(resolved@.map_values(|e: ModuleReferenceEntry| e@), goal, cur.at());
        }
        self.entries = resolved;
        *r = cur;
        Ok(())
    }
}

/// Resolving names changes no stored offset and drops no entry: a table that
/// could be resolved has as many entries as before, each with the header it had.
pub proof fn lemma_read_names_keeps_headers(
    data: Seq<u8>,
    entries: Seq<ModuleReference>,
    offset: int,
    from: int,
    pos: int,
)
    requires
        0 <= from <= entries.len(),
        ModuleReferenceTable::spec_read_names(data, entries, offset, from, pos) is Ok,
    ensures
        ({
            let (resolved, _) = ModuleReferenceTable::spec_read_names(
                data,
                entries,
                offset,
                from,
                pos,
            )->Ok_0;
            &&& resolved.len() == entries.len() - from
            &&& forall|i: int|
                0 <= i < resolved.len() ==> (#[trigger] resolved[i]).header == entries[from
                    + i].header
        }),
    decreases entries.len() - from,
{
    if from < entries.len() {
        let (name, end) = ModuleReferenceEntry::spec_name(
            data,
            offset + entries[from].header.offset,
        )->Ok_0;
        lemma_read_names_keeps_headers(data, entries, offset, from + 1, end);
        let (rest, _) = ModuleReferenceTable::spec_read_names(
            data,
            entries,
            offset,
            from + 1,
            end,
        )->Ok_0;
        let (resolved, _) = ModuleReferenceTable::spec_read_names(
            data,
            entries,
            offset,
            from,
            pos,
        )->Ok_0;
        assert(resolved == seq![ModuleReference { header: entries[from].header, name }] + rest);
        assert forall|i: int| 0 <= i < resolved.len() implies (#[trigger] resolved[i]).header
            == entries[from + i].header by {
            if i > 0 {
                assert(resolved[i] == rest[i - 1]);
            }
        }
    }
}

/// Reading the table fails only for want of bytes.
pub proof fn lemma_module_references_fail_truncated(data: Seq<u8>, pos: int, num: int)
    ensures
        ModuleReferenceTable::spec_read(data, pos, num) matches Err(e) ==> e
            == DecodeError::TruncatedInput,
    decreases num,
{
    if num > 0 {
        if let Ok((_, end)) = ModuleReferenceEntry::spec_read(data, pos) {
            lemma_module_references_fail_truncated(data, end, num - 1);
        }
    }
}

/// Resolving the names fails only for want of bytes.
pub proof fn lemma_read_names_fails_truncated(
    data: Seq<u8>,
    entries: Seq<ModuleReference>,
    offset: int,
    from: int,
    pos: int,
)
    ensures
        ModuleReferenceTable::spec_read_names(data, entries, offset, from, pos) matches Err(e)
            ==> e == DecodeError::TruncatedInput,
    decreases entries.len() - from,
{
    if 0 <= from < entries.len() {
        if let Ok((_, end)) = ModuleReferenceEntry::spec_name(
            data,
            offset + entries[from].header.offset,
        ) {
            lemma_read_names_fails_truncated(data, entries, offset, from + 1, end);
        }
    }
}

/// A module-reference table that could be read holds as many entries as were
/// asked for and takes two bytes for each.
pub proof fn lemma_module_references_take_their_count(data: Seq<u8>, pos: int, num: int)
    requires
        0 <= num,
    ensures
        ModuleReferenceTable::spec_read(data, pos, num) matches Ok((entries, end)) ==> entries.len()
            == num && end == pos + 2 * num,
    decreases num,
{
    if num > 0 {
        if let Ok((_, end)) = ModuleReferenceEntry::spec_read(data, pos) {
            lemma_module_references_take_their_count(data, end, num - 1);
        }
    }
}

} // verus!
