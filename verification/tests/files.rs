use ide_disk::extent::Extent;
use ide_disk::redoxfs::{extents_fit, node_blocks, starts_with, FileSystem, Node};

fn node(block: u64, name: &str) -> Node {
    Node { block, name: name.as_bytes().to_vec() }
}

fn sample() -> FileSystem {
    FileSystem {
        nodes: vec![
            node(2, "apps/editor/main.bin"),
            node(3, "apps/editor"),
            node(4, "apps/editorial"),
            node(5, "home/readme.txt"),
            node(6, "boot"),
            node(7, "home/readme.txt"),
            node(8, "apps/"),
        ],
    }
}

fn names(list: Vec<Vec<u8>>) -> Vec<String> {
    list.into_iter().map(|n| String::from_utf8(n).unwrap()).collect()
}

#[test]
fn nodes_lie_in_the_whole_sectors_of_real_extents() {
    let extents = vec![
        Extent { block: 0, length: 4096 },
        Extent { block: 10, length: 1536 },
        Extent { block: 50, length: 0 },
        Extent { block: 90, length: 511 },
        Extent { block: 100, length: 1025 },
    ];
    assert_eq!(node_blocks(&extents), vec![10, 11, 12, 100, 101]);
    assert_eq!(node_blocks(&Vec::new()), Vec::<u64>::new());
}

#[test]
fn node_blocks_reach_the_last_block() {
    let extents = vec![Extent { block: u64::MAX - 2, length: 1024 }];
    assert_eq!(node_blocks(&extents), vec![u64::MAX - 2, u64::MAX - 1]);
}

#[test]
fn first_node_with_the_name_is_found() {
    let fs = sample();
    assert_eq!(fs.node(&b"home/readme.txt".to_vec()), Some(node(5, "home/readme.txt")));
    assert_eq!(fs.node(&b"boot".to_vec()), Some(node(6, "boot")));
    assert_eq!(fs.node(&b"apps/editor".to_vec()), Some(node(3, "apps/editor")));
    assert_eq!(fs.node(&b"apps/edit".to_vec()), None);
    assert_eq!(fs.node(&b"".to_vec()), None);
    assert_eq!(FileSystem { nodes: Vec::new() }.node(&b"boot".to_vec()), None);
}

#[test]
fn listing_strips_the_directory() {
    let fs = sample();
    assert_eq!(names(fs.list(&b"home".to_vec())), vec!["readme.txt", "readme.txt"]);
    assert_eq!(names(fs.list(&b"apps/editor".to_vec())), vec!["main.bin"]);
    assert_eq!(names(fs.list(&b"apps".to_vec())), vec!["editor/main.bin", "editor", "editorial", ""]);
    assert_eq!(names(fs.list(&b"boot".to_vec())), Vec::<String>::new());
    assert_eq!(names(fs.list(&b"nowhere".to_vec())), Vec::<String>::new());
}

#[test]
fn listing_the_root_gives_every_name() {
    let fs = sample();
    let all: Vec<String> =
        fs.nodes.iter().map(|n| String::from_utf8(n.name.clone()).unwrap()).collect();
    assert_eq!(names(fs.list(&Vec::new())), all);
}

#[test]
fn prefixes() {
    assert!(starts_with(&b"abc".to_vec(), &b"".to_vec()));
    assert!(starts_with(&b"abc".to_vec(), &b"ab".to_vec()));
    assert!(starts_with(&b"abc".to_vec(), &b"abc".to_vec()));
    assert!(!starts_with(&b"abc".to_vec(), &b"abcd".to_vec()));
    assert!(!starts_with(&b"abc".to_vec(), &b"b".to_vec()));
}

#[test]
fn file_system_pairs_blocks_with_names() {
    let extents = vec![Extent { block: 10, length: 1024 }, Extent { block: 40, length: 600 }];
    let names = vec![b"a".to_vec(), b"b/c".to_vec(), b"d".to_vec()];
    assert_eq!(
        FileSystem::from_disk(&extents, &names),
        Some(FileSystem { nodes: vec![node(10, "a"), node(11, "b/c"), node(40, "d")] })
    );
    assert_eq!(FileSystem::from_disk(&extents, &names[..2].to_vec()), None);
    assert_eq!(FileSystem::from_disk(&Vec::new(), &names), None);
    assert_eq!(
        FileSystem::from_disk(&Vec::new(), &Vec::new()),
        Some(FileSystem { nodes: Vec::new() })
    );
}

#[test]
fn extents_must_end_on_the_disk() {
    assert!(extents_fit(&vec![Extent { block: u64::MAX - 2, length: 1024 + 511 }]));
    assert!(!extents_fit(&vec![
        Extent { block: 1, length: 512 },
        Extent { block: u64::MAX - 2, length: 3 * 512 },
    ]));
    assert!(extents_fit(&Vec::new()));
}
