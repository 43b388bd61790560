//! The resource table.
//!
//! Resources are read-only data that is kept apart from the data segments:
//! menus, dialog templates, icons, strings. The table begins with a shift
//! count that scales the offsets and lengths in it. Then come the resource
//! types, each a header and a header for every resource of the type. How many
//! types there are is either known beforehand, or a type header with a type id
//! of zero ends the table.

use vstd::prelude::*;
use crate::error::DecodeError;
use crate::util::endian::{le16, u16_le_at};
use crate::util::reader::{
    lemma_prepend_empty, lemma_prepend_twice, prepend, reads_as, result_view, ByteReader,
};

verus! {

/// The size of a resource-type header in bytes.
pub const RESOURCE_TYPE_HEADER_SIZE: usize = 0x8;

/// The size of a resource header in bytes.
pub const RESOURCE_HEADER_SIZE: usize = 0xC;

/// What the table begins with.
#[derive(Debug, Clone, Copy, PartialEq, Eq)]
pub struct NeResourceTableHeader {
    pub alignment_shift_count: u16,
}

/// The header of a resource type.
#[derive(Debug, Clone, Copy, PartialEq, Eq)]
pub struct NeResourceTypeHeader {
    pub type_id: u16,
    pub num_resources: u16,
    pub res: [u16; 2],
}

/// The header of one resource.
#[derive(Debug, Clone, Copy, PartialEq, Eq)]
pub struct NeResourceHeader {
    pub data_offset_shifted: u16,
    pub data_length: u16,
    pub flags: u16,
    pub resource_id: u16,
    pub res: [u16; 2],
}

/// One resource.
#[derive(Debug, Clone, PartialEq, Eq)]
pub struct NeResource {
    pub header: NeResourceHeader,
}

/// A resource type with its resources.
#[derive(Debug, Clone, PartialEq, Eq)]
pub struct NeResourceType {
    pub header: NeResourceTypeHeader,
    pub resources: Vec<NeResource>,
}

/// The resource table.
#[derive(Debug, Clone, PartialEq, Eq)]
pub struct NeResourceTable {
    pub header: NeResourceTableHeader,
    pub resource_types: Vec<NeResourceType>,
}

/// A resource type as a mathematical value.
pub struct ResourceType {
    pub header: NeResourceTypeHeader,
    pub resources: Seq<NeResource>,
}

/// A resource table as a mathematical value.
pub struct ResourceTable {
    pub header: NeResourceTableHeader,
    pub resource_types: Seq<ResourceType>,
}

impl View for NeResourceType {
    type V = ResourceType;

    open spec fn view(&self) -> ResourceType {
        ResourceType { header: self.header, resources: self.resources@ }
    }
}

impl View for NeResourceTable {
    type V = ResourceTable;

    open spec fn view(&self) -> ResourceTable {
        ResourceTable {
            header: self.header,
            resource_types: self.resource_types@.map_values(|t: NeResourceType| t@),
        }
    }
}

impl NeResourceTableHeader {
    /// What reading the two-byte header at `pos` gives.
    pub open spec fn spec_read(data: Seq<u8>, pos: int) -> Result<
        (NeResourceTableHeader, int),
        DecodeError,
    > {
        if 0 <= pos && pos + 2 <= data.len() {
            Ok((NeResourceTableHeader { alignment_shift_count: le16(data, pos) }, pos + 2))
        } else {
            Err(DecodeError::TruncatedInput)
        }
    }

    /// Reads the shift count that the table begins with.
    pub fn read(r: &mut ByteReader) -> (res: Result<Self, DecodeError>)
        ensures
            reads_as(*old(r), *final(r), res, Self::spec_read(old(r).data@, old(r).at())),
    {
        let alignment_shift_count = r.read_u16()?;
        Ok(Self { alignment_shift_count })
    }
}

impl NeResourceTypeHeader {
    /// The header laid out in the eight bytes `b`.
    pub open spec fn spec_from_bytes(b: Seq<u8>) -> NeResourceTypeHeader {
        NeResourceTypeHeader {
            type_id: le16(b, 0),
            num_resources: le16(b, 2),
            res: [le16(b, 4), le16(b, 6)],
        }
    }

    /// What reading a header at `pos` gives.
    pub open spec fn spec_read(data: Seq<u8>, pos: int) -> Result<
        (NeResourceTypeHeader, int),
        DecodeError,
    > {
        if 0 <= pos && pos + 8 <= data.len() {
            Ok((Self::spec_from_bytes(data.subrange(pos, pos + 8)), pos + 8))
        } else {
            Err(DecodeError::TruncatedInput)
        }
    }

    /// Reads the eight-byte header of a resource type.
    pub fn read(r: &mut ByteReader) -> (res: Result<Self, DecodeError>)
        ensures
            reads_as(*old(r), *final(r), res, Self::spec_read(old(r).data@, old(r).at())),
    {
        let buf = r.take(RESOURCE_TYPE_HEADER_SIZE)?;
        let header = Self {
            type_id: u16_le_at(buf, 0),
            num_resources: u16_le_at(buf, 2),
            res: [u16_le_at(buf, 4), u16_le_at(buf, 6)],
        };
        assert(header.res =~= Self::spec_from_bytes(buf@).res);
        Ok(header)
    }
}

impl NeResourceHeader {
    /// The header laid out in the twelve bytes `b`.
    pub open spec fn spec_from_bytes(b: Seq<u8>) -> NeResourceHeader {
        NeResourceHeader {
            data_offset_shifted: le16(b, 0),
            data_length: le16(b, 2),
            flags: le16(b, 4),
            resource_id: le16(b, 6),
            res: [le16(b, 8), le16(b, 10)],
        }
    }

    /// What reading a header at `pos` gives.
    pub open spec fn spec_read(data: Seq<u8>, pos: int) -> Result<
        (NeResourceHeader, int),
        DecodeError,
    > {
        if 0 <= pos && pos + 12 <= data.len() {
            Ok((Self::spec_from_bytes(data.subrange(pos, pos + 12)), pos + 12))
        } else {
            Err(DecodeError::TruncatedInput)
        }
    }

    /// Reads the twelve-byte header of a resource.
    pub fn read(r: &mut ByteReader) -> (res: Result<Self, DecodeError>)
        ensures
            reads_as(*old(r), *final(r), res, Self::spec_read(old(r).data@, old(r).at())),
    {
        let buf = r.take(RESOURCE_HEADER_SIZE)?;
        let header = Self {
            data_offset_shifted: u16_le_at(buf, 0),
            data_length: u16_le_at(buf, 2),
            flags: u16_le_at(buf, 4),
            resource_id: u16_le_at(buf, 6),
            res: [u16_le_at(buf, 8), u16_le_at(buf, 10)],
        };
        assert(header.res =~= Self::spec_from_bytes(buf@).res);
        Ok(header)
    }
}

impl NeResource {
    /// What reading a resource at `pos` gives: its header.
    pub open spec fn spec_read(data: Seq<u8>, pos: int) -> Result<(NeResource, int), DecodeError> {
        match NeResourceHeader::spec_read(data, pos) {
            Ok((header, end)) => Ok((NeResource { header }, end)),
            Err(e) => Err(e),
        }
    }

    /// The `count` resources at `pos`.
    pub open spec fn spec_read_many(data: Seq<u8>, pos: int, count: int) -> Result<
        (Seq<NeResource>, int),
        DecodeError,
    >
        decreases count,
    {
        if count <= 0 {
            Ok((Seq::empty(), pos))
        } else {
            match Self::spec_read(data, pos) {
                Err(e) => Err(e),
                Ok((resource, end)) => prepend(
                    seq![resource],
                    Self::spec_read_many(data, end, count - 1),
                ),
            }
        }
    }

    /// Reads one resource.
    pub fn read(r: &mut ByteReader) -> (res: Result<Self, DecodeError>)
        ensures
            reads_as(*old(r), *final(r), res, Self::spec_read(old(r).data@, old(r).at())),
    {
        Ok(Self { header: NeResourceHeader::read(r)? })
    }

    /// Reads `count` resources. The reader is moved as far as resources were read.
    fn read_many(cur: &mut ByteReader, count: u16) -> (res: Result<Vec<NeResource>, DecodeError>)
        ensures
            final(cur).data == old(cur).data,
            match Self::spec_read_many(old(cur).data@, old(cur).at(), count as int) {
                Ok((resources, end)) => {
                    &&& res is Ok
                    &&& res->Ok_0@ == resources
                    &&& final(cur).pos == end
                },
                Err(e) => res == Err::<Vec<NeResource>, DecodeError>(e),
            },
    {
        let ghost data = cur.data@;
        let ghost goal = Self::spec_read_many(data, cur.at(), count as int);
        let mut resources: Vec<NeResource> = Vec::new();
        let mut done: u16 = 0;
        proof {
            lemma_prepend_empty(resources@, goal, 0);
        }
        while done < count
            invariant
                cur.data == old(cur).data,
                data == cur.data@,
                done <= count,
                goal == Self::spec_read_many(data, old(cur).at(), count as int),
                goal == prepend(resources@, Self::spec_read_many(data, cur.at(), count - done)),
            decreases count - done,
        {
            let resource = NeResource::read(cur)?;
            proof {
                lemma_prepend_twice(
                    resources@,
                    seq![resource],
                    Self::spec_read_many(data, cur.at(), count - done - 1),
                );
                assert(resources@ + seq![resource] =~= resources@.push(resource));
            }
            resources.push(resource);
            done += 1;
        }
        proof {
            lemma_prepend_empty(resources@, goal, cur.at());
        }
        Ok(resources)
    }
}

impl NeResourceType {
    /// What reading a resource type at `pos` gives: the header, and as many
    /// resources as the header counts.
    pub open spec fn spec_read(data: Seq<u8>, pos: int) -> Result<(ResourceType, int), DecodeError> {
        match NeResourceTypeHeader::spec_read(data, pos) {
            Err(e) => Err(e),
            Ok((header, body)) => match NeResource::spec_read_many(
                data,
                body,
                header.num_resources as int,
            ) {
                Err(e) => Err(e),
                Ok((resources, end)) => Ok((ResourceType { header, resources }, end)),
            },
        }
    }

    /// What reading a resource type or the terminator at `pos` gives. A header
    /// with a type id of zero is the terminator: it is read whole and nothing
    /// after it.
    pub open spec fn spec_read_opt(data: Seq<u8>, pos: int) -> Result<
        (Option<ResourceType>, int),
        DecodeError,
    > {
        match NeResourceTypeHeader::spec_read(data, pos) {
            Err(e) => Err(e),
            Ok((header, body)) => if header.type_id == 0 {
                Ok((None, body))
            } else {
                match Self::spec_read(data, pos) {
                    Err(e) => Err(e),
                    Ok((resource_type, end)) => Ok((Some(resource_type), end)),
                }
            },
        }
    }

    /// The outcome of reading a type or the terminator, with the type taken by its view.
    pub open spec fn spec_outcome(res: Result<Option<Self>, DecodeError>) -> Result<
        Option<ResourceType>,
        DecodeError,
    > {
        match res {
            Ok(Some(resource_type)) => Ok(Some(resource_type@)),
            Ok(None) => Ok(None),
            Err(e) => Err(e),
        }
    }

    /// Reads a resource type with its resources.
    pub fn read(r: &mut ByteReader) -> (res: Result<Self, DecodeError>)
        ensures
            reads_as(
                *old(r),
                *final(r),
                result_view(res),
                Self::spec_read(old(r).data@, old(r).at()),
            ),
    {
        let mut cur = *r;
        let header = NeResourceTypeHeader::read(&mut cur)?;
        let resources = NeResource::read_many(&mut cur, header.num_resources)?;
        *r = cur;
        Ok(Self { header, resources })
    }

    /// Reads a resource type with its resources, or the terminator.
    pub fn read_opt(r: &mut ByteReader) -> (res: Result<Option<Self>, DecodeError>)
        ensures
            reads_as(
                *old(r),
                *final(r),
                Self::spec_outcome(res),
                Self::spec_read_opt(old(r).data@, old(r).at()),
            ),
    {
        let mut cur = *r;
        let header = NeResourceTypeHeader::read(&mut cur)?;
        if header.type_id == 0 {
            *r = cur;
            return Ok(None);
        }
        let resources = NeResource::read_many(&mut cur, header.num_resources)?;
        *r = cur;
        Ok(Some(Self { header, resources }))
    }
}

impl NeResourceTable {
    /// The `count` resource types at `pos`.
    pub open spec fn spec_types(data: Seq<u8>, pos: int, count: int) -> Result<
        (Seq<ResourceType>, int),
        DecodeError,
    >
        decreases count,
    {
        if count <= 0 {
            Ok((Seq::empty(), pos))
        } else {
            match NeResourceType::spec_read(data, pos) {
                Err(e) => Err(e),
                Ok((resource_type, end)) => prepend(
                    seq![resource_type],
                    Self::spec_types(data, end, count - 1),
                ),
            }
        }
    }

    /// The resource types from `pos` up to the terminator, and the offset after it.
    pub open spec fn spec_types_variadic(data: Seq<u8>, pos: int) -> Result<
        (Seq<ResourceType>, int),
        DecodeError,
    >
        decreases data.len() - pos,
    {
        match NeResourceType::spec_read_opt(data, pos) {
            Err(e) => Err(e),
            Ok((None, end)) => Ok((Seq::empty(), end)),
            Ok((Some(resource_type), end)) => {
                proof {
                    lemma_read_many_moves_on(data, pos + 8, le16(data, pos + 2) as int);
                }
                prepend(seq![resource_type], Self::spec_types_variadic(data, end))
            },
        }
    }

    /// A table with the given header and resource types.
    pub open spec fn spec_with_header(
        header: NeResourceTableHeader,
        types: Result<(Seq<ResourceType>, int), DecodeError>,
    ) -> Result<(ResourceTable, int), DecodeError> {
        match types {
            Err(e) => Err(e),
            Ok((resource_types, end)) => Ok((ResourceTable { header, resource_types }, end)),
        }
    }

    /// What reading a table of `num_entries` resource types at `pos` gives.
    pub open spec fn spec_read(data: Seq<u8>, pos: int, num_entries: int) -> Result<
        (ResourceTable, int),
        DecodeError,
    > {
        match NeResourceTableHeader::spec_read(data, pos) {
            Err(e) => Err(e),
            Ok((header, body)) => Self::spec_with_header(
                header,
                Self::spec_types(data, body, num_entries),
            ),
        }
    }

    /// What reading a table that a terminator ends gives.
    pub open spec fn spec_read_variadic(data: Seq<u8>, pos: int) -> Result<
        (ResourceTable, int),
        DecodeError,
    > {
        match NeResourceTableHeader::spec_read(data, pos) {
            Err(e) => Err(e),
            Ok((header, body)) => Self::spec_with_header(
                header,
                Self::spec_types_variadic(data, body),
            ),
        }
    }

    /// Reads a resource table of `num_entries` resource types.
    pub fn read(r: &mut ByteReader, num_entries: u16) -> (res: Result<Self, DecodeError>)
        ensures
            reads_as(
                *old(r),
                *final(r),
                result_view(res),
                Self::spec_read(old(r).data@, old(r).at(), num_entries as int),
            ),
    {
        let ghost data = r.data@;
        let mut cur = *r;
        let header = NeResourceTableHeader::read(&mut cur)?;
        let ghost body = cur.at();
        let ghost goal = Self::spec_types(data, body, num_entries as int);
        let mut resource_types: Vec<NeResourceType> = Vec::new();
        let mut done: u16 = 0;
        proof {
            lemma_prepend_empty(Seq::<ResourceType>::empty(), goal, 0);
            assert(resource_types@.map_values(|t: NeResourceType| t@) =~= Seq::<
                ResourceType,
            >::empty());
        }
        while done < num_entries
            invariant
                *r == *old(r),
                cur.data == r.data,
                data == r.data@,
                done <= num_entries,
                NeResourceTableHeader::spec_read(data, old(r).at()) == Ok::<
                    (NeResourceTableHeader, int),
                    DecodeError,
                >((header, body)),
                goal == Self::spec_types(data, body, num_entries as int),
                goal == prepend(
                    resource_types@.map_values(|t: NeResourceType| t@),
                    Self::spec_types(data, cur.at(), num_entries - done),
                ),
            decreases num_entries - done,
        {
            let ghost before = resource_types@.map_values(|t: NeResourceType| t@);
            let resource_type = NeResourceType::read(&mut cur)?;
            proof {
                lemma_prepend_twice(
                    before,
                    seq![resource_type@],
                    Self::spec_types(data, cur.at(), num_entries - done - 1),
                );
                assert(resource_types@.push(resource_type).map_values(|t: NeResourceType| t@)
                    =~= before + seq![resource_type@]);
            }
            resource_types.push(resource_type);
            done += 1;
        }
        proof {
            lemma_prepend_empty(resource_types@.map_values(|t: NeResourceType| t@), goal, cur.at());
        }
        *r = cur;
        Ok(Self { header, resource_types })
    }

    /// Reads a resource table whose number of types is not known: types are
    /// read up to the first type header with a type id of zero.
    pub fn read_variadic(r: &mut ByteReader) -> (res: Result<Self, DecodeError>)
        ensures
            reads_as(
                *old(r),
                *final(r),
                result_view(res),
                Self::spec_read_variadic(old(r).data@, old(r).at()),
            ),
    {
        let ghost data = r.data@;
        let mut cur = *r;
        let header = NeResourceTableHeader::read(&mut cur)?;
        let ghost body = cur.at();
        let ghost goal = Self::spec_types_variadic(data, body);
        let mut resource_types: Vec<NeResourceType> = Vec::new();
        let mut more = true;
        proof {
            lemma_prepend_empty(Seq::<ResourceType>::empty(), goal, 0);
            assert(resource_types@.map_values(|t: NeResourceType| t@) =~= Seq::<
                ResourceType,
            >::empty());
        }
        while more
            invariant
                *r == *old(r),
                cur.data == r.data,
                data == r.data@,
                NeResourceTableHeader::spec_read(data, old(r).at()) == Ok::<
                    (NeResourceTableHeader, int),
                    DecodeError,
                >((header, body)),
                goal == Self::spec_types_variadic(data, body),
                more ==> goal == prepend(
                    resource_types@.map_values(|t: NeResourceType| t@),
                    Self::spec_types_variadic(data, cur.at()),
                ),
                !more ==> goal == Ok::<(Seq<ResourceType>, int), DecodeError>(
                    (resource_types@.map_values(|t: NeResourceType| t@), cur.at()),
                ),
            decreases
                    (if more {
                        1int
                    } else {
                        0int
                    }),
                    data.len() - cur.at(),
        {
            let ghost before = resource_types@.map_values(|t: NeResourceType| t@);
            let ghost head = cur.at();
            match NeResourceType::read_opt(&mut cur)? {
                Some(resource_type) => {
                    proof {
                        lemma_read_many_moves_on(data, head + 8, le16(data, head + 2) as int);
                        lemma_prepend_twice(
                            before,
                            seq![resource_type@],
                            Self::spec_types_variadic(data, cur.at()),
                        );
                        assert(resource_types@.push(resource_type).map_values(
                            |t: NeResourceType| t@,
                        ) =~= before + seq![resource_type@]);
                    }
                    resource_types.push(resource_type);
                },
                None => {
                    proof {
                        lemma_prepend_empty(before, goal, cur.at());
                    }
                    more = false;
                },
            }
        }
        *r = cur;
        Ok(Self { header, resource_types })
    }
}

/// Reading resources never moves backwards and never leaves the image.
pub proof fn lemma_read_many_moves_on(data: Seq<u8>, pos: int, count: int)
    requires
        0 <= pos <= data.len(),
    ensures
        NeResource::spec_read_many(data, pos, count) matches Ok((resources, end)) ==> pos <= end
            <= data.len() && resources.len() == (if count > 0 {
            count
        } else {
            0
        }) && end == pos + 12 * resources.len(),
    decreases count,
{
    if count > 0 && pos + 12 <= data.len() {
        lemma_read_many_moves_on(data, pos + 12, count - 1);
    }
}

/// In a table that a terminator ends, reading stops at the first type header
/// whose type id is zero: every type that was read has a type id other than
/// zero, and the eight bytes before the offset where the table ends are a type
/// header with the type id zero.
pub proof fn lemma_variadic_stops_at_first_zero_type(data: Seq<u8>, pos: int)
    requires
        NeResourceTable::spec_types_variadic(data, pos) is Ok,
    ensures
        ({
            let (types, end) = NeResourceTable::spec_types_variadic(data, pos)->Ok_0;
            &&& pos + 8 <= end <= data.len()
            &&& le16(data, end - 8) == 0
            &&& forall|i: int| 0 <= i < types.len() ==> (#[trigger] types[i]).header.type_id != 0
        }),
    decreases data.len() - pos,
{
    if let Ok((Some(resource_type), end)) = NeResourceType::spec_read_opt(data, pos) {
        lemma_read_many_moves_on(data, pos + 8, le16(data, pos + 2) as int);
        lemma_variadic_stops_at_first_zero_type(data, end);
        let (rest, _) = NeResourceTable::spec_types_variadic(data, end)->Ok_0;
        let (types, _) = NeResourceTable::spec_types_variadic(data, pos)->Ok_0;
        assert(types == seq![resource_type] + rest);
        assert forall|i: int| 0 <= i < types.len() implies (#[trigger] types[i]).header.type_id
            != 0 by {
            if i > 0 {
                assert(types[i] == rest[i - 1]);
            }
        }
    }
}

/// A resource table fails only for want of bytes, whichever way it is read.
pub proof fn lemma_resource_table_fails_truncated(data: Seq<u8>, pos: int, count: int)
    ensures
        NeResourceTable::spec_read(data, pos, count) matches Err(e) ==> e
            == DecodeError::TruncatedInput,
        NeResourceTable::spec_read_variadic(data, pos) matches Err(e) ==> e
            == DecodeError::TruncatedInput,
{
    if let Ok((_, body)) = NeResourceTableHeader::spec_read(data, pos) {
        lemma_types_fail_truncated(data, body, count);
        lemma_types_variadic_fail_truncated(data, body);
    }
}

proof fn lemma_resources_fail_truncated(data: Seq<u8>, pos: int, count: int)
    ensures
        NeResource::spec_read_many(data, pos, count) matches Err(e) ==> e
            == DecodeError::TruncatedInput,
    decreases count,
{
    if count > 0 && 0 <= pos && pos + 12 <= data.len() {
        lemma_resources_fail_truncated(data, pos + 12, count - 1);
    }
}

proof fn lemma_types_fail_truncated(data: Seq<u8>, pos: int, count: int)
    ensures
        NeResourceTable::spec_types(data, pos, count) matches Err(e) ==> e
            == DecodeError::TruncatedInput,
    decreases count,
{
    if count > 0 {
        if let Ok((header, body)) = NeResourceTypeHeader::spec_read(data, pos) {
            lemma_resources_fail_truncated(data, body, header.num_resources as int);
        }
        if let Ok((_, end)) = NeResourceType::spec_read(data, pos) {
            lemma_types_fail_truncated(data, end, count - 1);
        }
    }
}

proof fn lemma_types_variadic_fail_truncated(data: Seq<u8>, pos: int)
    ensures
        NeResourceTable::spec_types_variadic(data, pos) matches Err(e) ==> e
            == DecodeError::TruncatedInput,
    decreases data.len() - pos,
{
    if let Ok((header, body)) = NeResourceTypeHeader::spec_read(data, pos) {
        lemma_resources_fail_truncated(data, body, header.num_resources as int);
        lemma_read_many_moves_on(data, body, header.num_resources as int);
    }
    if let Ok((Some(_), end)) = NeResourceType::spec_read_opt(data, pos) {
        lemma_types_variadic_fail_truncated(data, end);
    }
}

} // verus!
