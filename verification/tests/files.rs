use gtasa_extractor::cursor::ByteCursor;
use gtasa_extractor::error::ParseError;
use gtasa_extractor::layout::{FILLER_SIZE, UNKNOWN_DATA_SIZE};
use gtasa_extractor::parser::{
    parse_link_lengths, parse_navigation_links, parse_navigation_nodes, parse_path_file,
    parse_path_header, parse_path_intersection_flags, parse_path_links, parse_path_nodes, Link,
    LinkLength, NavigationLink, NavigationNode, Node, NodeFile, NodeType, PathHeader,
    PathIntersectionFlags,
};

fn header_bytes(nodes: u32, vehicle: u32, ped: u32, navi: u32, links: u32) -> Vec<u8> {
    let mut bytes = Vec::new();
    for count in [nodes, vehicle, ped, navi, links] {
        bytes.extend_from_slice(&count.to_le_bytes());
    }
    bytes
}

fn node_record(node_id: u16, x: i16, packed: u8) -> [u8; 28] {
    let mut record = [0u8; 28];
    record[8..10].copy_from_slice(&x.to_le_bytes());
    record[20..22].copy_from_slice(&node_id.to_le_bytes());
    record[24] = packed;
    record
}

fn navigation_node_record(node_id: u16, direction_x: i8) -> [u8; 14] {
    let mut record = [0u8; 14];
    record[6..8].copy_from_slice(&node_id.to_le_bytes());
    record[8] = direction_x.to_le_bytes()[0];
    record
}

/// A file of three path nodes (two of them vehicle nodes), two navigation
/// nodes and four links, every array with values that tell its entries
/// apart. `filler` and `tail` fill the two opaque regions.
fn sample_file(filler: u8, tail: u8) -> Vec<u8> {
    let mut bytes = header_bytes(3, 2, 1, 2, 4);
    bytes.extend_from_slice(&node_record(10, 800, 0b0000_0010));
    bytes.extend_from_slice(&node_record(11, -8, 0b1000_0001));
    bytes.extend_from_slice(&node_record(12, 0, 0b1000_0001));
    bytes.extend_from_slice(&navigation_node_record(20, 50));
    bytes.extend_from_slice(&navigation_node_record(21, -100));
    for i in 0u16..4 {
        bytes.extend_from_slice(&(100 + i).to_le_bytes());
        bytes.extend_from_slice(&(200 + i).to_le_bytes());
    }
    bytes.extend(std::iter::repeat(filler).take(768));
    for i in 0u8..4 {
        bytes.extend_from_slice(&[10 + i, i]);
    }
    for i in 0u8..4 {
        bytes.push(50 + i);
    }
    for i in 0u8..4 {
        bytes.push(i);
    }
    bytes.extend(std::iter::repeat(tail).take(384));
    bytes
}

fn sample_header() -> PathHeader {
    PathHeader {
        number_of_nodes: 3,
        number_of_vehicle_nodes: 2,
        number_of_ped_nodes: 1,
        number_of_navi_nodes: 2,
        number_of_links: 4,
    }
}

fn expected_length(header: &PathHeader) -> u64 {
    let links = u64::from(header.number_of_links);
    20 + 28 * u64::from(header.number_of_nodes)
        + 14 * u64::from(header.number_of_navi_nodes)
        + 4 * links
        + 768
        + 2 * links
        + links
        + links
        + 384
}

fn decoded_sample() -> NodeFile {
    parse_path_file(&sample_file(0xaa, 0x55)).unwrap()
}

#[test]
fn opaque_regions_have_the_sizes_of_the_format() {
    assert_eq!(FILLER_SIZE, 768);
    assert_eq!(UNKNOWN_DATA_SIZE, 384);
}

#[test]
fn file_of_the_announced_length_decodes_and_is_consumed_whole() {
    let bytes = sample_file(0xaa, 0x55);
    assert_eq!(bytes.len(), 1316);
    let file = parse_path_file(&bytes).unwrap();
    assert_eq!(file.header, sample_header());
    assert_eq!(expected_length(&file.header), 1316);
}

#[test]
fn length_formula_holds_for_other_counts() {
    for (nodes, navi, links) in [(0u32, 0u32, 0u32), (1, 0, 0), (0, 1, 0), (0, 0, 1), (5, 3, 7)] {
        let header = PathHeader {
            number_of_nodes: nodes,
            number_of_vehicle_nodes: 0,
            number_of_ped_nodes: nodes,
            number_of_navi_nodes: navi,
            number_of_links: links,
        };
        let mut bytes = header_bytes(nodes, 0, nodes, navi, links);
        let total = expected_length(&header) as usize;
        bytes.resize(total, 0);
        let file = parse_path_file(&bytes).unwrap();
        assert_eq!(file.header, header);
        assert_eq!(file.nodes.len(), nodes as usize);
        assert_eq!(file.navigation_nodes.len(), navi as usize);
        assert_eq!(file.links.len(), links as usize);
        bytes.push(0);
        assert_eq!(
            parse_path_file(&bytes).unwrap_err(),
            ParseError::UnexpectedFileSize { expected: total as u64 + 1, observed: total as u64 }
        );
    }
}

#[test]
fn smallest_file_is_a_header_and_the_two_opaque_regions() {
    let mut bytes = header_bytes(0, 0, 0, 0, 0);
    bytes.resize(20 + 768 + 384, 0xee);
    let file = parse_path_file(&bytes).unwrap();
    assert_eq!(
        file,
        NodeFile {
            header: PathHeader {
                number_of_nodes: 0,
                number_of_vehicle_nodes: 0,
                number_of_ped_nodes: 0,
                number_of_navi_nodes: 0,
                number_of_links: 0,
            },
            nodes: vec![],
            navigation_nodes: vec![],
            links: vec![],
            navigation_links: vec![],
            link_lengths: vec![],
            path_intersection_flags: vec![],
        }
    );
}

#[test]
fn nodes_come_out_in_file_order() {
    let file = decoded_sample();
    let ids: Vec<u16> = file.nodes.iter().map(|node| node.node_id).collect();
    assert_eq!(ids, vec![10, 11, 12]);
    let xs: Vec<i16> = file.nodes.iter().map(|node| node.x).collect();
    assert_eq!(xs, vec![800, -8, 0]);
    let navigation_ids: Vec<u16> = file.navigation_nodes.iter().map(|node| node.node_id).collect();
    assert_eq!(navigation_ids, vec![20, 21]);
    assert_eq!(file.navigation_nodes[0].direction_x, 50);
    assert_eq!(file.navigation_nodes[1].direction_x, -100);
}

#[test]
fn nodes_before_the_vehicle_count_are_cars_or_boats_and_the_rest_pedestrian() {
    let file = decoded_sample();
    let types: Vec<NodeType> = file.nodes.iter().map(|node| node.node_type).collect();
    assert_eq!(types, vec![NodeType::Car, NodeType::Boat, NodeType::Ped]);
    let vehicle_nodes = file.header.number_of_vehicle_nodes as usize;
    for (index, node) in file.nodes.iter().enumerate() {
        let vehicle = node.node_type == NodeType::Car || node.node_type == NodeType::Boat;
        assert_eq!(index < vehicle_nodes, vehicle);
        assert_eq!(index >= vehicle_nodes, node.node_type == NodeType::Ped);
    }
}

#[test]
fn vehicle_count_beyond_the_nodes_makes_every_node_a_vehicle_node() {
    let mut bytes = sample_file(0, 0);
    bytes[4..8].copy_from_slice(&u32::MAX.to_le_bytes());
    let file = parse_path_file(&bytes).unwrap();
    let types: Vec<NodeType> = file.nodes.iter().map(|node| node.node_type).collect();
    assert_eq!(types, vec![NodeType::Car, NodeType::Boat, NodeType::Boat]);
}

#[test]
fn link_arrays_describe_the_same_edge_at_the_same_index() {
    let file = decoded_sample();
    for i in 0u16..4 {
        let at = usize::from(i);
        assert_eq!(file.links[at], Link { area_id: 100 + i, node_id: 200 + i });
        assert_eq!(
            file.navigation_links[at],
            NavigationLink { navigation_node_id: (10 + i + 256 * i) % 1024, area_id: i }
        );
        assert_eq!(file.link_lengths[at], LinkLength { length: 50 + i as u8 });
        assert_eq!(
            file.path_intersection_flags[at],
            PathIntersectionFlags {
                road_crossing: i % 2 == 1,
                pedestrian_traffic_light: i % 2 == 1,
            }
        );
    }
    assert_eq!(file.navigation_links[1].navigation_node_id, 267);
    assert_eq!(file.navigation_links[3].navigation_node_id, 781);
}

#[test]
fn link_arrays_are_as_long_as_the_header_says() {
    let file = decoded_sample();
    assert_eq!(file.nodes.len(), 3);
    assert_eq!(file.navigation_nodes.len(), 2);
    assert_eq!(file.links.len(), 4);
    assert_eq!(file.navigation_links.len(), 4);
    assert_eq!(file.link_lengths.len(), 4);
    assert_eq!(file.path_intersection_flags.len(), 4);
    assert_eq!(file.links.len(), file.header.number_of_links as usize);
}

#[test]
fn opaque_regions_are_not_interpreted() {
    assert_eq!(
        parse_path_file(&sample_file(0x00, 0x00)).unwrap(),
        parse_path_file(&sample_file(0xff, 0x5a)).unwrap()
    );
}

#[test]
fn empty_input_is_truncated() {
    assert_eq!(parse_path_file(&[]).unwrap_err(), ParseError::TruncatedInput);
}

#[test]
fn short_header_is_truncated() {
    let bytes = sample_file(0, 0);
    assert_eq!(parse_path_file(&bytes[..19]).unwrap_err(), ParseError::TruncatedInput);
    assert_eq!(parse_path_file(&bytes[..1]).unwrap_err(), ParseError::TruncatedInput);
}

#[test]
fn file_that_ends_in_a_record_is_truncated() {
    let bytes = sample_file(0, 0);
    // In the path nodes, the navigation nodes and the links.
    for length in [20usize, 47, 103, 104, 131, 132, 147] {
        assert_eq!(
            parse_path_file(&bytes[..length]).unwrap_err(),
            ParseError::TruncatedInput,
            "length {}",
            length
        );
    }
    // In the navigation links, the link lengths and the intersection flags.
    for length in [916usize, 917, 923, 924, 927, 928, 931] {
        assert_eq!(
            parse_path_file(&bytes[..length]).unwrap_err(),
            ParseError::TruncatedInput,
            "length {}",
            length
        );
    }
}

#[test]
fn file_with_links_that_ends_in_the_filler_is_truncated() {
    let bytes = sample_file(0, 0);
    for length in [148usize, 500, 915] {
        assert_eq!(
            parse_path_file(&bytes[..length]).unwrap_err(),
            ParseError::TruncatedInput,
            "length {}",
            length
        );
    }
}

#[test]
fn file_that_ends_in_the_tail_has_an_unexpected_size() {
    let bytes = sample_file(0, 0);
    for length in [932usize, 1000, 1315] {
        assert_eq!(
            parse_path_file(&bytes[..length]).unwrap_err(),
            ParseError::UnexpectedFileSize { expected: length as u64, observed: 1316 },
            "length {}",
            length
        );
    }
}

#[test]
fn file_without_links_that_ends_in_an_opaque_region_has_an_unexpected_size() {
    let mut bytes = header_bytes(0, 0, 0, 0, 0);
    assert_eq!(
        parse_path_file(&bytes).unwrap_err(),
        ParseError::UnexpectedFileSize { expected: 20, observed: 1172 }
    );
    bytes.resize(1171, 0);
    assert_eq!(
        parse_path_file(&bytes).unwrap_err(),
        ParseError::UnexpectedFileSize { expected: 1171, observed: 1172 }
    );
    let mut with_a_node = header_bytes(1, 1, 0, 0, 0);
    with_a_node.resize(48, 0);
    assert_eq!(
        parse_path_file(&with_a_node).unwrap_err(),
        ParseError::UnexpectedFileSize { expected: 48, observed: 1200 }
    );
    with_a_node.truncate(47);
    assert_eq!(parse_path_file(&with_a_node).unwrap_err(), ParseError::TruncatedInput);
}

#[test]
fn file_with_trailing_bytes_has_an_unexpected_size() {
    let mut bytes = sample_file(0, 0);
    bytes.push(0);
    assert_eq!(
        parse_path_file(&bytes).unwrap_err(),
        ParseError::UnexpectedFileSize { expected: 1317, observed: 1316 }
    );
    bytes.resize(5000, 7);
    assert_eq!(
        parse_path_file(&bytes).unwrap_err(),
        ParseError::UnexpectedFileSize { expected: 5000, observed: 1316 }
    );
}

#[test]
fn header_that_announces_more_than_the_file_holds_is_truncated() {
    let mut bytes = header_bytes(u32::MAX, u32::MAX, 0, u32::MAX, u32::MAX);
    bytes.resize(4096, 0);
    assert_eq!(parse_path_file(&bytes).unwrap_err(), ParseError::TruncatedInput);
}

#[test]
fn header_reader_moves_past_the_header() {
    let bytes = sample_file(0, 0);
    let mut cursor = ByteCursor::new(&bytes);
    assert_eq!(parse_path_header(&mut cursor), Ok(sample_header()));
    assert_eq!(cursor.position(), 20);
}

#[test]
fn header_reader_fails_in_place_on_nineteen_bytes() {
    let bytes = [0u8; 19];
    let mut cursor = ByteCursor::new(&bytes);
    assert_eq!(parse_path_header(&mut cursor), Err(ParseError::TruncatedInput));
    assert_eq!(cursor.position(), 0);
}

#[test]
fn region_readers_follow_one_another() {
    let bytes = sample_file(0, 0);
    let header = sample_header();
    let mut cursor = ByteCursor::new(&bytes);
    cursor.skip(20);
    let nodes = parse_path_nodes(&mut cursor, &header).unwrap();
    assert_eq!(cursor.position(), 104);
    assert_eq!(nodes.len(), 3);
    assert_eq!(nodes[1], Node::decode(&bytes[48..76], 1, 2));
    let navigation_nodes = parse_navigation_nodes(&mut cursor, &header).unwrap();
    assert_eq!(cursor.position(), 132);
    assert_eq!(navigation_nodes[1], NavigationNode::decode(&bytes[118..132]));
    let links = parse_path_links(&mut cursor, &header).unwrap();
    assert_eq!(cursor.position(), 148);
    assert_eq!(links[3], Link { area_id: 103, node_id: 203 });
    cursor.skip(FILLER_SIZE);
    let navigation_links = parse_navigation_links(&mut cursor, &header).unwrap();
    assert_eq!(cursor.position(), 924);
    assert_eq!(navigation_links[0], NavigationLink { navigation_node_id: 10, area_id: 0 });
    let link_lengths = parse_link_lengths(&mut cursor, &header).unwrap();
    assert_eq!(cursor.position(), 928);
    assert_eq!(link_lengths[2], LinkLength { length: 52 });
    let flags = parse_path_intersection_flags(&mut cursor, &header).unwrap();
    assert_eq!(cursor.position(), 932);
    assert_eq!(flags.len(), 4);
    cursor.skip(UNKNOWN_DATA_SIZE);
    assert_eq!(cursor.position(), 1316);
}

#[test]
fn region_reader_that_fails_leaves_the_cursor_where_it_was() {
    let bytes = sample_file(0, 0);
    let header = sample_header();
    let short = &bytes[..103];
    let mut cursor = ByteCursor::new(short);
    cursor.skip(20);
    assert_eq!(parse_path_nodes(&mut cursor, &header), Err(ParseError::TruncatedInput));
    assert_eq!(cursor.position(), 20);
    let mut cursor = ByteCursor::new(short);
    cursor.skip(100);
    assert_eq!(parse_navigation_nodes(&mut cursor, &header), Err(ParseError::TruncatedInput));
    assert_eq!(cursor.position(), 100);
    assert_eq!(parse_path_links(&mut cursor, &header), Err(ParseError::TruncatedInput));
    assert_eq!(parse_navigation_links(&mut cursor, &header), Err(ParseError::TruncatedInput));
    assert_eq!(parse_link_lengths(&mut cursor, &header), Err(ParseError::TruncatedInput));
    assert_eq!(
        parse_path_intersection_flags(&mut cursor, &header),
        Err(ParseError::TruncatedInput)
    );
    assert_eq!(cursor.position(), 100);
}

#[test]
fn region_reader_with_a_count_of_zero_reads_nothing_even_past_the_end() {
    let bytes = [0u8; 4];
    let header = PathHeader {
        number_of_nodes: 0,
        number_of_vehicle_nodes: 0,
        number_of_ped_nodes: 0,
        number_of_navi_nodes: 0,
        number_of_links: 0,
    };
    let mut cursor = ByteCursor::new(&bytes);
    cursor.skip(768);
    assert_eq!(parse_path_nodes(&mut cursor, &header), Ok(vec![]));
    assert_eq!(parse_navigation_links(&mut cursor, &header), Ok(vec![]));
    assert_eq!(parse_link_lengths(&mut cursor, &header), Ok(vec![]));
    assert_eq!(parse_path_intersection_flags(&mut cursor, &header), Ok(vec![]));
    assert_eq!(cursor.position(), 768);
}
