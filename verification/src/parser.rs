//! The records of a path file and the readers that decode them.
use crate::cursor::ByteCursor;
use crate::encoding::{
    bit, i16_at, lemma_mask_keeps_low_bits, lemma_mask_keeps_low_ten_bits, lemma_mask_tests_bit,
    low_bits, read_i16, read_u16, read_u32, signed_byte, to_signed_byte, u16_at, u32_at,
};
use crate::error::ParseError;
use crate::layout::{
    FILLER_SIZE, HEADER_SIZE, LINK_LENGTH_SIZE, LINK_SIZE, NAVIGATION_LINK_SIZE,
    NAVIGATION_NODE_SIZE, NODE_SIZE, PATH_INTERSECTION_FLAGS_SIZE, UNKNOWN_DATA_SIZE,
};
use vstd::prelude::*;

verus! {

/// What travels over a path node.
#[derive(Debug, Clone, Copy, PartialEq, Eq, Structural)]
pub enum NodeType {
    Car,
    Boat,
    Ped,
}

impl NodeType {
    /// The name of the type, as it is written out.
    pub open spec fn name(self) -> Seq<char> {
        match self {
            NodeType::Car => "Car"@,
            NodeType::Boat => "Boat"@,
            NodeType::Ped => "Ped"@,
        }
    }

    /// The type of the node at `index` in a file whose first
    /// `number_of_vehicle_nodes` nodes are vehicle nodes: those are boat or
    /// car nodes by their boat flag, every later node is a pedestrian node.
    pub open spec fn classify(index: int, number_of_vehicle_nodes: int, boat: bool) -> NodeType {
        if index < number_of_vehicle_nodes {
            if boat {
                NodeType::Boat
            } else {
                NodeType::Car
            }
        } else {
            NodeType::Ped
        }
    }

    /// Whether vehicles travel over such a node.
    pub open spec fn is_vehicle(self) -> bool {
        self == NodeType::Car || self == NodeType::Boat
    }

    /// Writes the type out: `Car`, `Boat` or `Ped`.
    pub fn to_string(&self) -> (text: String)
        ensures
            text@ == self.name(),
    {
        match self {
            NodeType::Car => "Car".to_owned(),
            NodeType::Boat => "Boat".to_owned(),
            NodeType::Ped => "Ped".to_owned(),
        }
    }
}

/// The five record counts that open a file.
#[derive(Debug, Clone, Copy, PartialEq, Eq, Structural)]
pub struct PathHeader {
    pub number_of_nodes: u32,
    pub number_of_vehicle_nodes: u32,
    pub number_of_ped_nodes: u32,
    pub number_of_navi_nodes: u32,
    pub number_of_links: u32,
}

/// A vertex of the path graph.
#[derive(Debug, Clone, Copy, PartialEq, Eq, Structural)]
pub struct Node {
    pub node_type: NodeType,
    /// Position, in eighths of a map unit.
    pub x: i16,
    pub y: i16,
    pub z: i16,
    /// Index of the node's first link in the file's link arrays.
    pub link_id: u16,
    pub area_id: u16,
    pub node_id: u16,
    pub path_width: u8,
    pub flood_fill: u8,
    /// Number of links of the node, from `link_id` on: 0 to 15.
    pub link_count: u8,
    /// The two lowest bits of byte 24, which `link_count` holds too. Bits 4
    /// and 5 of that byte, where the format keeps a traffic level, are not
    /// read: what consumes decoded files counts on the value as it is.
    pub traffic_level: u8,
    pub emergency_vehicle_only: bool,
    pub is_not_highway: bool,
    pub is_highway: bool,
    pub parking: bool,
}

impl Node {
    /// The node that the 28 bytes of `record` describe, being record
    /// `index` of a file with `number_of_vehicle_nodes` vehicle nodes.
    pub open spec fn from_record(
        record: Seq<u8>,
        index: int,
        number_of_vehicle_nodes: int,
    ) -> Node {
        Node {
            node_type: NodeType::classify(index, number_of_vehicle_nodes, bit(record[24], 7)),
            x: i16_at(record, 8),
            y: i16_at(record, 10),
            z: i16_at(record, 12),
            link_id: u16_at(record, 16),
            area_id: u16_at(record, 18),
            node_id: u16_at(record, 20),
            path_width: record[22],
            flood_fill: record[23],
            link_count: low_bits(record[24], 4),
            traffic_level: low_bits(record[24], 2),
            emergency_vehicle_only: bit(record[25], 0),
            is_not_highway: bit(record[25], 4),
            is_highway: bit(record[25], 5),
            parking: bit(record[26], 5),
        }
    }

    /// Decodes one path node record.
    pub fn decode(record: &[u8], index: u32, number_of_vehicle_nodes: u32) -> (node: Node)
        requires
            record@.len() == NODE_SIZE,
        ensures
            node == Node::from_record(record@, index as int, number_of_vehicle_nodes as int),
            index < number_of_vehicle_nodes <==> node.node_type.is_vehicle(),
            index >= number_of_vehicle_nodes <==> node.node_type == NodeType::Ped,
            node.link_count <= 15,
            node.traffic_level <= 3,
    {
        proof {
            lemma_mask_keeps_low_bits(record@[24]);
            lemma_mask_tests_bit(record@[24]);
            lemma_mask_tests_bit(record@[25]);
            lemma_mask_tests_bit(record@[26]);
        }
        let link_count: u8 = record[24] & 0b0000_1111;
        let traffic_level: u8 = record[24] & 0b0000_0011;
        let boats = record[24] & 0b1000_0000 > 0;
        let emergency_vehicle_only = record[25] & 0b0000_0001 > 0;
        let is_not_highway = record[25] & 0b0001_0000 > 0;
        let is_highway = record[25] & 0b0010_0000 > 0;
        let parking = record[26] & 0b0010_0000 > 0;
        Node {
            node_type: if index < number_of_vehicle_nodes {
                if boats {
                    NodeType::Boat
                } else {
                    NodeType::Car
                }
            } else {
                NodeType::Ped
            },
            x: read_i16(record, 8),
            y: read_i16(record, 10),
            z: read_i16(record, 12),
            link_id: read_u16(record, 16),
            area_id: read_u16(record, 18),
            node_id: read_u16(record, 20),
            path_width: record[22],
            flood_fill: record[23],
            link_count,
            traffic_level,
            emergency_vehicle_only,
            is_not_highway,
            is_highway,
            parking,
        }
    }
}

/// Record `index` of a region that starts at `start` and is made of records
/// of `size` bytes.
pub open spec fn record_at(source: Seq<u8>, start: int, size: int, index: int) -> Seq<u8> {
    source.subrange(start + size * index, start + size * index + size)
}

/// Whether the nodes before index `number_of_vehicle_nodes`, and no others,
/// are car or boat nodes, and the nodes from that index on, and no others,
/// are pedestrian nodes.
pub open spec fn classified(nodes: Seq<Node>, number_of_vehicle_nodes: int) -> bool {
    forall|i: int|
        0 <= i < nodes.len() ==> {
            &&& i < number_of_vehicle_nodes <==> (#[trigger] nodes[i]).node_type.is_vehicle()
            &&& i >= number_of_vehicle_nodes <==> nodes[i].node_type == NodeType::Ped
        }
}

/// The path nodes of a region that starts at `start`, in file order.
pub open spec fn nodes_at(source: Seq<u8>, start: int, header: PathHeader) -> Seq<Node> {
    Seq::new(
        header.number_of_nodes as nat,
        |i: int|
            Node::from_record(
                record_at(source, start, NODE_SIZE as int, i),
                i,
                header.number_of_vehicle_nodes as int,
            ),
    )
}

/// Reads the `number_of_nodes` path node records at the cursor.
///
/// Fails, and leaves the cursor where it was, when the bytes end before the
/// last of them does.
pub fn parse_path_nodes(cursor: &mut ByteCursor, header: &PathHeader) -> (result: Result<
    Vec<Node>,
    ParseError,
>)
    ensures
        final(cursor).source() == old(cursor).source(),
        result is Ok <==> old(cursor).can_read(NODE_SIZE * header.number_of_nodes),
        match result {
            Ok(nodes) => {
                &&& nodes@ == nodes_at(old(cursor).source(), old(cursor).offset() as int, *header)
                &&& nodes@.len() == header.number_of_nodes
                &&& classified(nodes@, header.number_of_vehicle_nodes as int)
                &&& final(cursor).offset() == old(cursor).offset() + NODE_SIZE
                    * header.number_of_nodes
            },
            Err(error) => {
                &&& error == ParseError::TruncatedInput
                &&& final(cursor).offset() == old(cursor).offset()
            },
        },
{
    let start: u64 = cursor.position();
    let ghost source = cursor.source();
    let mut nodes: Vec<Node> = Vec::new();
    let mut index: u32 = 0;
    while index < header.number_of_nodes
        invariant
            index <= header.number_of_nodes,
            source == old(cursor).source(),
            start == old(cursor).offset(),
            cursor.source() == source,
            cursor.offset() == start + NODE_SIZE * index,
            index > 0 ==> start + NODE_SIZE * index <= source.len(),
            nodes@.len() == index,
            forall|i: int|
                0 <= i < index ==> nodes@[i] == Node::from_record(
                    record_at(source, start as int, NODE_SIZE as int, i),
                    i,
                    header.number_of_vehicle_nodes as int,
                ),
        decreases header.number_of_nodes - index,
    {
        match cursor.read(NODE_SIZE) {
            Ok(record) => {
                assert(record@ =~= record_at(
                    source,
                    start as int,
                    NODE_SIZE as int,
                    index as int,
                ));
                nodes.push(Node::decode(record, index, header.number_of_vehicle_nodes));
            },
            Err(error) => {
                cursor.seek(start);
                return Err(error);
            },
        }
        index = index + 1;
    }
    assert(nodes@ =~= nodes_at(source, start as int, *header));
    Ok(nodes)
}

/// An auxiliary vertex that carries routing hints.
#[derive(Debug, Clone, Copy, PartialEq, Eq, Structural)]
pub struct NavigationNode {
    /// Position, in eighths of a map unit.
    pub x: i16,
    pub y: i16,
    pub area_id: u16,
    pub node_id: u16,
    /// Direction, in hundredths.
    pub direction_x: i8,
    pub direction_y: i8,
    pub path_node_width: u8,
    /// The three lowest bits of byte 11. The five fields from here on are
    /// each the lowest bits of their byte, as many as the field is wide, so
    /// the fields of one byte overlap. The bits higher up in the two bytes,
    /// where the format keeps these fields, are not read: what consumes
    /// decoded files counts on the values as they are.
    pub number_of_left_lanes: u8,
    /// The three lowest bits of byte 11.
    pub number_of_right_lanes: u8,
    /// The lowest bit of byte 11.
    pub traffic_light_direction_behavior: u8,
    /// The two lowest bits of byte 12.
    pub traffic_light_behavior: u8,
    /// The lowest bit of byte 12.
    pub train_corssing: u8,
}

impl NavigationNode {
    /// The navigation node that the 14 bytes of `record` describe.
    pub open spec fn from_record(record: Seq<u8>) -> NavigationNode {
        NavigationNode {
            x: i16_at(record, 0),
            y: i16_at(record, 2),
            area_id: u16_at(record, 4),
            node_id: u16_at(record, 6),
            direction_x: signed_byte(record[8]),
            direction_y: signed_byte(record[9]),
            path_node_width: record[10],
            number_of_left_lanes: low_bits(record[11], 3),
            number_of_right_lanes: low_bits(record[11], 3),
            traffic_light_direction_behavior: low_bits(record[11], 1),
            traffic_light_behavior: low_bits(record[12], 2),
            train_corssing: low_bits(record[12], 1),
        }
    }

    /// Decodes one navigation node record.
    pub fn decode(record: &[u8]) -> (node: NavigationNode)
        requires
            record@.len() == NAVIGATION_NODE_SIZE,
        ensures
            node == NavigationNode::from_record(record@),
    {
        proof {
            lemma_mask_keeps_low_bits(record@[11]);
            lemma_mask_keeps_low_bits(record@[12]);
        }
        NavigationNode {
            x: read_i16(record, 0),
            y: read_i16(record, 2),
            area_id: read_u16(record, 4),
            node_id: read_u16(record, 6),
            direction_x: to_signed_byte(record[8]),
            direction_y: to_signed_byte(record[9]),
            path_node_width: record[10],
            number_of_left_lanes: record[11] & 0b0000_0111,
            number_of_right_lanes: record[11] & 0b0000_0111,
            traffic_light_direction_behavior: record[11] & 0b0000_0001,
            traffic_light_behavior: record[12] & 0b0000_0011,
            train_corssing: record[12] & 0b0000_0001,
        }
    }
}

/// The target of one edge: a path node, by area and number.
#[derive(Debug, Clone, Copy, PartialEq, Eq, Structural)]
pub struct Link {
    pub area_id: u16,
    pub node_id: u16,
}

impl Link {
    /// The link that the 4 bytes of `record` describe.
    pub open spec fn from_record(record: Seq<u8>) -> Link {
        Link { area_id: u16_at(record, 0), node_id: u16_at(record, 2) }
    }

    /// Decodes one link record.
    pub fn decode(record: &[u8]) -> (link: Link)
        requires
            record@.len() == LINK_SIZE,
        ensures
            link == Link::from_record(record@),
    {
        Link { area_id: read_u16(record, 0), node_id: read_u16(record, 2) }
    }
}

/// The navigation node that belongs to one edge.
#[derive(Debug, Clone, Copy, PartialEq, Eq, Structural)]
pub struct NavigationLink {
    /// The ten lowest bits of the record's 16-bit value.
    pub navigation_node_id: u16,
    /// The six lowest bits of the record's second byte, which are bits 8 to
    /// 13 of its 16-bit value: `navigation_node_id` holds the lowest two of
    /// them too, and the highest two bits of the value are not read. What
    /// consumes decoded files counts on the values as they are.
    pub area_id: u16,
}

impl NavigationLink {
    /// The navigation link that the 2 bytes of `record` describe.
    pub open spec fn from_record(record: Seq<u8>) -> NavigationLink {
        NavigationLink {
            navigation_node_id: (u16_at(record, 0) % 1024) as u16,
            area_id: low_bits(record[1], 6) as u16,
        }
    }

    /// Decodes one navigation link record.
    pub fn decode(record: &[u8]) -> (link: NavigationLink)
        requires
            record@.len() == NAVIGATION_LINK_SIZE,
        ensures
            link == NavigationLink::from_record(record@),
    {
        let value: u16 = read_u16(record, 0);
        proof {
            lemma_mask_keeps_low_ten_bits(value);
            lemma_mask_keeps_low_bits(record@[1]);
        }
        NavigationLink {
            navigation_node_id: value & 0b0000_0011_1111_1111,
            area_id: (record[1] & 0b0011_1111) as u16,
        }
    }
}

/// The length of one edge.
#[derive(Debug, Clone, Copy, PartialEq, Eq, Structural)]
pub struct LinkLength {
    pub length: u8,
}

impl LinkLength {
    /// The link length that the one byte of `record` describes.
    pub open spec fn from_record(record: Seq<u8>) -> LinkLength {
        LinkLength { length: record[0] }
    }

    /// Decodes one link length record.
    pub fn decode(record: &[u8]) -> (length: LinkLength)
        requires
            record@.len() == LINK_LENGTH_SIZE,
        ensures
            length == LinkLength::from_record(record@),
    {
        LinkLength { length: record[0] }
    }
}

/// What crosses one edge.
///
/// Both flags are the lowest bit of the record's byte, so they are always
/// equal. The bits higher up in the byte, where the format keeps two flags
/// apart, are not read: what consumes decoded files counts on the values as
/// they are.
#[derive(Debug, Clone, Copy, PartialEq, Eq, Structural)]
pub struct PathIntersectionFlags {
    pub road_crossing: bool,
    pub pedestrian_traffic_light: bool,
}

impl PathIntersectionFlags {
    /// The flags that the one byte of `record` describes.
    pub open spec fn from_record(record: Seq<u8>) -> PathIntersectionFlags {
        PathIntersectionFlags {
            road_crossing: bit(record[0], 0),
            pedestrian_traffic_light: bit(record[0], 0),
        }
    }

    /// Decodes one intersection flags record.
    pub fn decode(record: &[u8]) -> (flags: PathIntersectionFlags)
        requires
            record@.len() == PATH_INTERSECTION_FLAGS_SIZE,
        ensures
            flags == PathIntersectionFlags::from_record(record@),
    {
        proof {
            lemma_mask_tests_bit(record@[0]);
        }
        PathIntersectionFlags {
            road_crossing: record[0] & 0b0000_0001 > 0,
            pedestrian_traffic_light: record[0] & 0b0000_0001 > 0,
        }
    }
}

/// The navigation nodes of a region that starts at `start`, in file order.
pub open spec fn navigation_nodes_at(
    source: Seq<u8>,
    start: int,
    header: PathHeader,
) -> Seq<NavigationNode> {
    Seq::new(
        header.number_of_navi_nodes as nat,
        |i: int|
            NavigationNode::from_record(record_at(source, start, NAVIGATION_NODE_SIZE as int, i)),
    )
}

/// Reads the `number_of_navi_nodes` navigation node records at the cursor.
///
/// Fails, and leaves the cursor where it was, when the bytes end before the
/// last of them does.
pub fn parse_navigation_nodes(cursor: &mut ByteCursor, header: &PathHeader) -> (result: Result<
    Vec<NavigationNode>,
    ParseError,
>)
    ensures
        final(cursor).source() == old(cursor).source(),
        result is Ok <==> old(cursor).can_read(NAVIGATION_NODE_SIZE * header.number_of_navi_nodes),
        match result {
            Ok(records) => {
                &&& records@.len() == header.number_of_navi_nodes
                &&& records@ == navigation_nodes_at(
                    old(cursor).source(),
                    old(cursor).offset() as int,
                    *header,
                )
                &&& final(cursor).offset() == old(cursor).offset() + NAVIGATION_NODE_SIZE
                    * header.number_of_navi_nodes
            },
            Err(error) => {
                &&& error == ParseError::TruncatedInput
                &&& final(cursor).offset() == old(cursor).offset()
            },
        },
{
    let start: u64 = cursor.position();
    let ghost source = cursor.source();
    let mut records: Vec<NavigationNode> = Vec::new();
    let mut index: u32 = 0;
    while index < header.number_of_navi_nodes
        invariant
            index <= header.number_of_navi_nodes,
            source == old(cursor).source(),
            start == old(cursor).offset(),
            cursor.source() == source,
            cursor.offset() == start + NAVIGATION_NODE_SIZE * index,
            index > 0 ==> start + NAVIGATION_NODE_SIZE * index <= source.len(),
            records@.len() == index,
            forall|i: int|
                0 <= i < index ==> records@[i] == NavigationNode::from_record(
                    record_at(source, start as int, NAVIGATION_NODE_SIZE as int, i),
                ),
        decreases header.number_of_navi_nodes - index,
    {
        match cursor.read(NAVIGATION_NODE_SIZE) {
            Ok(record) => {
                assert(record@ =~= record_at(
                    source,
                    start as int,
                    NAVIGATION_NODE_SIZE as int,
                    index as int,
                ));
                records.push(NavigationNode::decode(record));
            },
            Err(error) => {
                cursor.seek(start);
                return Err(error);
            },
        }
        index = index + 1;
    }
    assert(records@ =~= navigation_nodes_at(source, start as int, *header));
    Ok(records)
}

/// The links of a region that starts at `start`, in file order.
pub open spec fn links_at(source: Seq<u8>, start: int, header: PathHeader) -> Seq<Link> {
    Seq::new(
        header.number_of_links as nat,
        |i: int| Link::from_record(record_at(source, start, LINK_SIZE as int, i)),
    )
}

/// Reads the `number_of_links` link records at the cursor.
///
/// Fails, and leaves the cursor where it was, when the bytes end before the
/// last of them does.
pub fn parse_path_links(cursor: &mut ByteCursor, header: &PathHeader) -> (result: Result<
    Vec<Link>,
    ParseError,
>)
    ensures
        final(cursor).source() == old(cursor).source(),
        result is Ok <==> old(cursor).can_read(LINK_SIZE * header.number_of_links),
        match result {
            Ok(records) => {
                &&& records@.len() == header.number_of_links
                &&& records@ == links_at(old(cursor).source(), old(cursor).offset() as int, *header)
                &&& final(cursor).offset() == old(cursor).offset() + LINK_SIZE
                    * header.number_of_links
            },
            Err(error) => {
                &&& error == ParseError::TruncatedInput
                &&& final(cursor).offset() == old(cursor).offset()
            },
        },
{
    let start: u64 = cursor.position();
    let ghost source = cursor.source();
    let mut records: Vec<Link> = Vec::new();
    let mut index: u32 = 0;
    while index < header.number_of_links
        invariant
            index <= header.number_of_links,
            source == old(cursor).source(),
            start == old(cursor).offset(),
            cursor.source() == source,
            cursor.offset() == start + LINK_SIZE * index,
            index > 0 ==> start + LINK_SIZE * index <= source.len(),
            records@.len() == index,
            forall|i: int|
                0 <= i < index ==> records@[i] == Link::from_record(
                    record_at(source, start as int, LINK_SIZE as int, i),
                ),
        decreases header.number_of_links - index,
    {
        match cursor.read(LINK_SIZE) {
            Ok(record) => {
                assert(record@ =~= record_at(
                    source,
                    start as int,
                    LINK_SIZE as int,
                    index as int,
                ));
                records.push(Link::decode(record));
            },
            Err(error) => {
                cursor.seek(start);
                return Err(error);
            },
        }
        index = index + 1;
    }
    assert(records@ =~= links_at(source, start as int, *header));
    Ok(records)
}

/// The navigation links of a region that starts at `start`, in file order.
pub open spec fn navigation_links_at(
    source: Seq<u8>,
    start: int,
    header: PathHeader,
) -> Seq<NavigationLink> {
    Seq::new(
        header.number_of_links as nat,
        |i: int|
            NavigationLink::from_record(record_at(source, start, NAVIGATION_LINK_SIZE as int, i)),
    )
}

/// Reads the `number_of_links` navigation link records at the cursor.
///
/// Fails, and leaves the cursor where it was, when the bytes end before the
/// last of them does.
pub fn parse_navigation_links(cursor: &mut ByteCursor, header: &PathHeader) -> (result: Result<
    Vec<NavigationLink>,
    ParseError,
>)
    ensures
        final(cursor).source() == old(cursor).source(),
        result is Ok <==> old(cursor).can_read(NAVIGATION_LINK_SIZE * header.number_of_links),
        match result {
            Ok(records) => {
                &&& records@.len() == header.number_of_links
                &&& records@ == navigation_links_at(
                    old(cursor).source(),
                    old(cursor).offset() as int,
                    *header,
                )
                &&& final(cursor).offset() == old(cursor).offset() + NAVIGATION_LINK_SIZE
                    * header.number_of_links
            },
            Err(error) => {
                &&& error == ParseError::TruncatedInput
                &&& final(cursor).offset() == old(cursor).offset()
            },
        },
{
    let start: u64 = cursor.position();
    let ghost source = cursor.source();
    let mut records: Vec<NavigationLink> = Vec::new();
    let mut index: u32 = 0;
    while index < header.number_of_links
        invariant
            index <= header.number_of_links,
            source == old(cursor).source(),
            start == old(cursor).offset(),
            cursor.source() == source,
            cursor.offset() == start + NAVIGATION_LINK_SIZE * index,
            index > 0 ==> start + NAVIGATION_LINK_SIZE * index <= source.len(),
            records@.len() == index,
            forall|i: int|
                0 <= i < index ==> records@[i] == NavigationLink::from_record(
                    record_at(source, start as int, NAVIGATION_LINK_SIZE as int, i),
                ),
        decreases header.number_of_links - index,
    {
        match cursor.read(NAVIGATION_LINK_SIZE) {
            Ok(record) => {
                assert(record@ =~= record_at(
                    source,
                    start as int,
                    NAVIGATION_LINK_SIZE as int,
                    index as int,
                ));
                records.push(NavigationLink::decode(record));
            },
            Err(error) => {
                cursor.seek(start);
                return Err(error);
            },
        }
        index = index + 1;
    }
    assert(records@ =~= navigation_links_at(source, start as int, *header));
    Ok(records)
}

/// The link lengths of a region that starts at `start`, in file order.
pub open spec fn link_lengths_at(
    source: Seq<u8>,
    start: int,
    header: PathHeader,
) -> Seq<LinkLength> {
    Seq::new(
        header.number_of_links as nat,
        |i: int| LinkLength::from_record(record_at(source, start, LINK_LENGTH_SIZE as int, i)),
    )
}

/// Reads the `number_of_links` link length records at the cursor.
///
/// Fails, and leaves the cursor where it was, when the bytes end before the
/// last of them does.
pub fn parse_link_lengths(cursor: &mut ByteCursor, header: &PathHeader) -> (result: Result<
    Vec<LinkLength>,
    ParseError,
>)
    ensures
        final(cursor).source() == old(cursor).source(),
        result is Ok <==> old(cursor).can_read(LINK_LENGTH_SIZE * header.number_of_links),
        match result {
            Ok(records) => {
                &&& records@.len() == header.number_of_links
                &&& records@ == link_lengths_at(
                    old(cursor).source(),
                    old(cursor).offset() as int,
                    *header,
                )
                &&& final(cursor).offset() == old(cursor).offset() + LINK_LENGTH_SIZE
                    * header.number_of_links
            },
            Err(error) => {
                &&& error == ParseError::TruncatedInput
                &&& final(cursor).offset() == old(cursor).offset()
            },
        },
{
    let start: u64 = cursor.position();
    let ghost source = cursor.source();
    let mut records: Vec<LinkLength> = Vec::new();
    let mut index: u32 = 0;
    while index < header.number_of_links
        invariant
            index <= header.number_of_links,
            source == old(cursor).source(),
            start == old(cursor).offset(),
            cursor.source() == source,
            cursor.offset() == start + LINK_LENGTH_SIZE * index,
            index > 0 ==> start + LINK_LENGTH_SIZE * index <= source.len(),
            records@.len() == index,
            forall|i: int|
                0 <= i < index ==> records@[i] == LinkLength::from_record(
                    record_at(source, start as int, LINK_LENGTH_SIZE as int, i),
                ),
        decreases header.number_of_links - index,
    {
        match cursor.read(LINK_LENGTH_SIZE) {
            Ok(record) => {
                assert(record@ =~= record_at(
                    source,
                    start as int,
                    LINK_LENGTH_SIZE as int,
                    index as int,
                ));
                records.push(LinkLength::decode(record));
            },
            Err(error) => {
                cursor.seek(start);
                return Err(error);
            },
        }
        index = index + 1;
    }
    assert(records@ =~= link_lengths_at(source, start as int, *header));
    Ok(records)
}

/// The intersection flags of a region that starts at `start`, in file order.
pub open spec fn path_intersection_flags_at(
    source: Seq<u8>,
    start: int,
    header: PathHeader,
) -> Seq<PathIntersectionFlags> {
    Seq::new(
        header.number_of_links as nat,
        |i: int|
            PathIntersectionFlags::from_record(
                record_at(source, start, PATH_INTERSECTION_FLAGS_SIZE as int, i),
            ),
    )
}

/// Reads the `number_of_links` intersection flags records at the cursor.
///
/// Fails, and leaves the cursor where it was, when the bytes end before the
/// last of them does.
pub fn parse_path_intersection_flags(
    cursor: &mut ByteCursor,
    header: &PathHeader,
) -> (result: Result<Vec<PathIntersectionFlags>, ParseError>)
    ensures
        final(cursor).source() == old(cursor).source(),
        result is Ok <==> old(cursor).can_read(
            PATH_INTERSECTION_FLAGS_SIZE * header.number_of_links,
        ),
        match result {
            Ok(records) => {
                &&& records@.len() == header.number_of_links
                &&& records@ == path_intersection_flags_at(
                    old(cursor).source(),
                    old(cursor).offset() as int,
                    *header,
                )
                &&& final(cursor).offset() == old(cursor).offset() + PATH_INTERSECTION_FLAGS_SIZE
                    * header.number_of_links
            },
            Err(error) => {
                &&& error == ParseError::TruncatedInput
                &&& final(cursor).offset() == old(cursor).offset()
            },
        },
{
    let start: u64 = cursor.position();
    let ghost source = cursor.source();
    let mut records: Vec<PathIntersectionFlags> = Vec::new();
    let mut index: u32 = 0;
    while index < header.number_of_links
        invariant
            index <= header.number_of_links,
            source == old(cursor).source(),
            start == old(cursor).offset(),
            cursor.source() == source,
            cursor.offset() == start + PATH_INTERSECTION_FLAGS_SIZE * index,
            index > 0 ==> start + PATH_INTERSECTION_FLAGS_SIZE * index <= source.len(),
            records@.len() == index,
            forall|i: int|
                0 <= i < index ==> records@[i] == PathIntersectionFlags::from_record(
                    record_at(source, start as int, PATH_INTERSECTION_FLAGS_SIZE as int, i),
                ),
        decreases header.number_of_links - index,
    {
        match cursor.read(PATH_INTERSECTION_FLAGS_SIZE) {
            Ok(record) => {
                assert(record@ =~= record_at(
                    source,
                    start as int,
                    PATH_INTERSECTION_FLAGS_SIZE as int,
                    index as int,
                ));
                records.push(PathIntersectionFlags::decode(record));
            },
            Err(error) => {
                cursor.seek(start);
                return Err(error);
            },
        }
        index = index + 1;
    }
    assert(records@ =~= path_intersection_flags_at(source, start as int, *header));
    Ok(records)
}

impl PathHeader {
    /// The header that the 20 bytes of `record` describe.
    pub open spec fn from_record(record: Seq<u8>) -> PathHeader {
        PathHeader {
            number_of_nodes: u32_at(record, 0),
            number_of_vehicle_nodes: u32_at(record, 4),
            number_of_ped_nodes: u32_at(record, 8),
            number_of_navi_nodes: u32_at(record, 12),
            number_of_links: u32_at(record, 16),
        }
    }

    /// Decodes the header record.
    pub fn decode(record: &[u8]) -> (header: PathHeader)
        requires
            record@.len() == HEADER_SIZE,
        ensures
            header == PathHeader::from_record(record@),
    {
        PathHeader {
            number_of_nodes: read_u32(record, 0),
            number_of_vehicle_nodes: read_u32(record, 4),
            number_of_ped_nodes: read_u32(record, 8),
            number_of_navi_nodes: read_u32(record, 12),
            number_of_links: read_u32(record, 16),
        }
    }

    /// Where the path nodes start: right after the header.
    pub open spec fn nodes_start(self) -> int {
        HEADER_SIZE as int
    }

    /// Where the navigation nodes start.
    pub open spec fn navigation_nodes_start(self) -> int {
        self.nodes_start() + NODE_SIZE * self.number_of_nodes
    }

    /// Where the links start.
    pub open spec fn links_start(self) -> int {
        self.navigation_nodes_start() + NAVIGATION_NODE_SIZE * self.number_of_navi_nodes
    }

    /// Where the filler starts: right after the links.
    pub open spec fn filler_start(self) -> int {
        self.links_start() + LINK_SIZE * self.number_of_links
    }

    /// Where the navigation links start.
    pub open spec fn navigation_links_start(self) -> int {
        self.filler_start() + FILLER_SIZE
    }

    /// Where the link lengths start.
    pub open spec fn link_lengths_start(self) -> int {
        self.navigation_links_start() + NAVIGATION_LINK_SIZE * self.number_of_links
    }

    /// Where the intersection flags start.
    pub open spec fn path_intersection_flags_start(self) -> int {
        self.link_lengths_start() + LINK_LENGTH_SIZE * self.number_of_links
    }

    /// Where the opaque tail starts: right after the intersection flags.
    pub open spec fn tail_start(self) -> int {
        self.path_intersection_flags_start() + PATH_INTERSECTION_FLAGS_SIZE * self.number_of_links
    }

    /// The length of a file with these counts: where its tail ends.
    pub open spec fn file_length(self) -> int {
        self.tail_start() + UNKNOWN_DATA_SIZE
    }

    /// Where the last record ends that a decoder of such a file reads.
    ///
    /// With links that is the last intersection flags record. Without, the
    /// three arrays behind the filler are empty and nothing is read after
    /// the (empty) links. The filler and the tail are skipped, never read,
    /// so bytes that lack there are no short read.
    pub open spec fn read_extent(self) -> int {
        if self.number_of_links == 0 {
            self.filler_start()
        } else {
            self.tail_start()
        }
    }
}

/// Reads the header at the cursor.
///
/// Fails, and leaves the cursor where it was, when fewer than 20 bytes are
/// left.
pub fn parse_path_header(cursor: &mut ByteCursor) -> (result: Result<PathHeader, ParseError>)
    ensures
        final(cursor).source() == old(cursor).source(),
        result is Ok <==> old(cursor).can_read(HEADER_SIZE as int),
        match result {
            Ok(header) => {
                &&& header == PathHeader::from_record(
                    record_at(
                        old(cursor).source(),
                        old(cursor).offset() as int,
                        HEADER_SIZE as int,
                        0,
                    ),
                )
                &&& final(cursor).offset() == old(cursor).offset() + HEADER_SIZE
            },
            Err(error) => {
                &&& error == ParseError::TruncatedInput
                &&& final(cursor).offset() == old(cursor).offset()
            },
        },
{
    let ghost source = cursor.source();
    let ghost start = cursor.offset();
    match cursor.read(HEADER_SIZE) {
        Ok(record) => {
            assert(record@ =~= record_at(source, start as int, HEADER_SIZE as int, 0));
            Ok(PathHeader::decode(record))
        },
        Err(error) => Err(error),
    }
}

/// Everything that one path file holds.
///
/// The four arrays that `number_of_links` counts run in step: entry `i` of
/// each describes the same edge.
#[derive(Debug, PartialEq, Eq)]
pub struct NodeFile {
    pub header: PathHeader,
    pub nodes: Vec<Node>,
    pub navigation_nodes: Vec<NavigationNode>,
    pub links: Vec<Link>,
    pub navigation_links: Vec<NavigationLink>,
    pub link_lengths: Vec<LinkLength>,
    pub path_intersection_flags: Vec<PathIntersectionFlags>,
}

/// A `NodeFile` as a mathematical value.
pub struct NodeFileView {
    pub header: PathHeader,
    pub nodes: Seq<Node>,
    pub navigation_nodes: Seq<NavigationNode>,
    pub links: Seq<Link>,
    pub navigation_links: Seq<NavigationLink>,
    pub link_lengths: Seq<LinkLength>,
    pub path_intersection_flags: Seq<PathIntersectionFlags>,
}

impl View for NodeFile {
    type V = NodeFileView;

    open spec fn view(&self) -> NodeFileView {
        NodeFileView {
            header: self.header,
            nodes: self.nodes@,
            navigation_nodes: self.navigation_nodes@,
            links: self.links@,
            navigation_links: self.navigation_links@,
            link_lengths: self.link_lengths@,
            path_intersection_flags: self.path_intersection_flags@,
        }
    }
}

impl NodeFileView {
    /// Whether every array has the length that the header gives it: the
    /// four link arrays all `number_of_links`.
    pub open spec fn counts_agree(self) -> bool {
        &&& self.nodes.len() == self.header.number_of_nodes
        &&& self.navigation_nodes.len() == self.header.number_of_navi_nodes
        &&& self.links.len() == self.header.number_of_links
        &&& self.navigation_links.len() == self.header.number_of_links
        &&& self.link_lengths.len() == self.header.number_of_links
        &&& self.path_intersection_flags.len() == self.header.number_of_links
    }

    /// Whether entry `i` of each of the four link arrays is what record `i`
    /// of that array's region in `data` describes.
    pub open spec fn edge_from(self, data: Seq<u8>, i: int) -> bool {
        let header = self.header;
        &&& self.links[i] == Link::from_record(
            data.subrange(
                header.links_start() + LINK_SIZE * i,
                header.links_start() + LINK_SIZE * i + LINK_SIZE,
            ),
        )
        &&& self.navigation_links[i] == NavigationLink::from_record(
            data.subrange(
                header.navigation_links_start() + NAVIGATION_LINK_SIZE * i,
                header.navigation_links_start() + NAVIGATION_LINK_SIZE * i + NAVIGATION_LINK_SIZE,
            ),
        )
        &&& self.link_lengths[i] == LinkLength::from_record(
            data.subrange(
                header.link_lengths_start() + LINK_LENGTH_SIZE * i,
                header.link_lengths_start() + LINK_LENGTH_SIZE * i + LINK_LENGTH_SIZE,
            ),
        )
        &&& self.path_intersection_flags[i] == PathIntersectionFlags::from_record(
            data.subrange(
                header.path_intersection_flags_start() + PATH_INTERSECTION_FLAGS_SIZE * i,
                header.path_intersection_flags_start() + PATH_INTERSECTION_FLAGS_SIZE * i
                    + PATH_INTERSECTION_FLAGS_SIZE,
            ),
        )
    }
}

/// The header of a file of at least 20 bytes.
pub open spec fn header_of(data: Seq<u8>) -> PathHeader {
    PathHeader::from_record(record_at(data, 0, HEADER_SIZE as int, 0))
}

/// The records of a file whose bytes reach to the end of every region.
pub open spec fn records_of(data: Seq<u8>) -> NodeFileView {
    let header = header_of(data);
    NodeFileView {
        header,
        nodes: nodes_at(data, header.nodes_start(), header),
        navigation_nodes: navigation_nodes_at(data, header.navigation_nodes_start(), header),
        links: links_at(data, header.links_start(), header),
        navigation_links: navigation_links_at(data, header.navigation_links_start(), header),
        link_lengths: link_lengths_at(data, header.link_lengths_start(), header),
        path_intersection_flags: path_intersection_flags_at(
            data,
            header.path_intersection_flags_start(),
            header,
        ),
    }
}

/// Whether decoding `data` meets a read that the bytes cannot serve: the
/// header, or a record of one of the six arrays.
pub open spec fn is_truncated(data: Seq<u8>) -> bool {
    data.len() < HEADER_SIZE || data.len() < header_of(data).read_extent()
}

/// What decoding `data` gives.
///
/// A file decodes when its length is exactly the one that its header
/// announces. It is truncated when it ends before the last record that is
/// read. Any other length is an unexpected file size, reported with the
/// length of the bytes and the offset at which the decoder ended.
pub open spec fn decode_path_file(data: Seq<u8>) -> Result<NodeFileView, ParseError> {
    if is_truncated(data) {
        Err(ParseError::TruncatedInput)
    } else if data.len() != header_of(data).file_length() {
        Err(
            ParseError::UnexpectedFileSize {
                expected: data.len() as u64,
                observed: header_of(data).file_length() as u64,
            },
        )
    } else {
        Ok(records_of(data))
    }
}

/// The length of a file is the sum of its regions: the header, 28 bytes
/// for each path node, 14 for each navigation node, 4 for each link, the
/// filler of 768, then 2, 1 and 1 byte for each link, and the tail of 384.
pub proof fn lemma_file_length(header: PathHeader)
    ensures
        header.file_length() == 20 + 28 * header.number_of_nodes + 14
            * header.number_of_navi_nodes + 4 * header.number_of_links + 768 + 2
            * header.number_of_links + 1 * header.number_of_links + 1 * header.number_of_links
            + 384,
        header.read_extent() <= header.file_length() - 384,
        header.file_length() <= u64::MAX,
{
}

/// A file decodes exactly when it is as long as its header makes it, and a
/// file that decodes was consumed to its last byte: its length is the sum
/// of its regions.
pub proof fn lemma_decodes_whole_file(data: Seq<u8>)
    ensures
        decode_path_file(data) is Ok <==> data.len() >= HEADER_SIZE && data.len() == header_of(
            data,
        ).file_length(),
        decode_path_file(data) matches Ok(file) ==> {
            &&& file == records_of(data)
            &&& file.header == header_of(data)
            &&& data.len() == 20 + 28 * file.header.number_of_nodes + 14
                * file.header.number_of_navi_nodes + 4 * file.header.number_of_links + 768 + 2
                * file.header.number_of_links + 1 * file.header.number_of_links + 1
                * file.header.number_of_links + 384
        },
{
    lemma_file_length(header_of(data));
}

/// In a decoded file the nodes before index `number_of_vehicle_nodes`, and
/// no others, are car or boat nodes; the nodes from that index on, and no
/// others, are pedestrian nodes.
pub proof fn lemma_nodes_classified(data: Seq<u8>)
    ensures
        decode_path_file(data) matches Ok(file) ==> classified(
            file.nodes,
            file.header.number_of_vehicle_nodes as int,
        ),
{
}

/// In a decoded file every array has the length that the header gives it;
/// the links, the navigation links, the link lengths and the intersection
/// flags are equally many, `number_of_links`.
pub proof fn lemma_counts_agree(data: Seq<u8>)
    ensures
        decode_path_file(data) matches Ok(file) ==> {
            &&& file.counts_agree()
            &&& file.links.len() == file.navigation_links.len() == file.link_lengths.len()
                == file.path_intersection_flags.len() == file.header.number_of_links
        },
{
}

/// In a decoded file entry `i` of the links, of the navigation links, of
/// the link lengths and of the intersection flags each come from record `i`
/// of their own region: the four describe the same edge.
pub proof fn lemma_link_arrays_in_step(data: Seq<u8>, i: int)
    requires
        0 <= i < header_of(data).number_of_links,
    ensures
        decode_path_file(data) matches Ok(file) ==> file.edge_from(data, i),
{
}

/// A file that ends before its header does, or before the last record that
/// its header makes a decoder read, fails as truncated.
pub proof fn lemma_truncated_file_fails(data: Seq<u8>)
    requires
        data.len() < HEADER_SIZE || data.len() < header_of(data).read_extent(),
    ensures
        decode_path_file(data) == Err::<NodeFileView, ParseError>(ParseError::TruncatedInput),
{
}

/// A file that goes on after the length that its header makes it fails
/// with an unexpected file size, which reports the length of the file and
/// the length that the header makes.
pub proof fn lemma_oversized_file_fails(data: Seq<u8>)
    requires
        data.len() >= HEADER_SIZE,
        data.len() > header_of(data).file_length(),
    ensures
        decode_path_file(data) == Err::<NodeFileView, ParseError>(
            ParseError::UnexpectedFileSize {
                expected: data.len() as u64,
                observed: header_of(data).file_length() as u64,
            },
        ),
        header_of(data).file_length() as u64 == header_of(data).file_length(),
{
    lemma_file_length(header_of(data));
}

/// A file that holds every record that is read, and ends before the filler
/// or the tail does, fails with an unexpected file size too: no read fell
/// short.
pub proof fn lemma_short_skip_fails_with_size(data: Seq<u8>)
    requires
        data.len() >= HEADER_SIZE,
        header_of(data).read_extent() <= data.len() < header_of(data).file_length(),
    ensures
        decode_path_file(data) == Err::<NodeFileView, ParseError>(
            ParseError::UnexpectedFileSize {
                expected: data.len() as u64,
                observed: header_of(data).file_length() as u64,
            },
        ),
{
}

/// Decodes the bytes of one path file.
///
/// Reads the header, the path nodes, the navigation nodes and the links,
/// skips the filler, reads the navigation links, the link lengths and the
/// intersection flags, skips the tail, and then checks that the cursor
/// stands exactly at the end of the bytes.
///
/// Succeeds exactly on the files that are as long as their header makes
/// them. Fails with `TruncatedInput` exactly when the bytes end before the
/// header or before a record that is read, and with `UnexpectedFileSize`
/// on every other length.
pub fn parse_path_file(data: &[u8]) -> (result: Result<NodeFile, ParseError>)
    ensures
        match result {
            Ok(file) => decode_path_file(data@) == Ok::<NodeFileView, ParseError>(file@),
            Err(error) => decode_path_file(data@) == Err::<NodeFileView, ParseError>(error),
        },
        result is Ok <==> data@.len() >= HEADER_SIZE && data@.len() == header_of(
            data@,
        ).file_length(),
        result == Err::<NodeFile, ParseError>(ParseError::TruncatedInput) <==> is_truncated(data@),
        data@.len() >= HEADER_SIZE && data@.len() > header_of(data@).file_length() ==> result
            == Err::<NodeFile, ParseError>(
            ParseError::UnexpectedFileSize {
                expected: data@.len() as u64,
                observed: header_of(data@).file_length() as u64,
            },
        ),
        result matches Ok(file) ==> {
            &&& file.header == header_of(data@)
            &&& data@.len() == 20 + 28 * file.header.number_of_nodes + 14
                * file.header.number_of_navi_nodes + 4 * file.header.number_of_links + 768 + 2
                * file.header.number_of_links + 1 * file.header.number_of_links + 1
                * file.header.number_of_links + 384
            &&& file@.counts_agree()
            &&& classified(file.nodes@, file.header.number_of_vehicle_nodes as int)
            &&& forall|i: int|
                0 <= i < file.header.number_of_links ==> #[trigger] file@.edge_from(data@, i)
        },
{
    proof {
        lemma_decodes_whole_file(data@);
    }
    let mut cursor = ByteCursor::new(data);
    let header = parse_path_header(&mut cursor)?;
    let nodes = parse_path_nodes(&mut cursor, &header)?;
    let navigation_nodes = parse_navigation_nodes(&mut cursor, &header)?;
    let links = parse_path_links(&mut cursor, &header)?;
    cursor.skip(FILLER_SIZE);
    let navigation_links = parse_navigation_links(&mut cursor, &header)?;
    let link_lengths = parse_link_lengths(&mut cursor, &header)?;
    let path_intersection_flags = parse_path_intersection_flags(&mut cursor, &header)?;
    cursor.skip(UNKNOWN_DATA_SIZE);

    let current_position: u64 = cursor.position();
    let length: u64 = data.len() as u64;
    if current_position != length {
        return Err(ParseError::UnexpectedFileSize { expected: length, observed: current_position });
    }
    let file = NodeFile {
        header,
        nodes,
        navigation_nodes,
        links,
        navigation_links,
        link_lengths,
        path_intersection_flags,
    };
    proof {
        lemma_nodes_classified(data@);
        lemma_counts_agree(data@);
        assert forall|i: int| 0 <= i < header.number_of_links implies #[trigger] file@.edge_from(
            data@,
            i,
        ) by {
            lemma_link_arrays_in_step(data@, i);
        }
    }
    Ok(file)
}

} // verus!
