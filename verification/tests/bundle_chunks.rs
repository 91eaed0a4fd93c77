use adytum::archive::{entry_name, zip_tree, ArchiveError, TreeEntry};
use adytum::bundle::{split_chunks, Bundle, CHUNK_SIZE};
use std::io::Read;

#[test]
fn chunk_size_is_64_kib() {
    assert_eq!(CHUNK_SIZE, 65_536);
}

#[test]
fn sha256_of_abc_is_the_standard_vector() {
    let b = Bundle::from_bytes(b"abc".to_vec());
    assert_eq!(
        b.content_hash_hex(),
        "ba7816bf8f01cfea414140de5dae2223b00361a396177a9cb410ff61f20015ad"
    );
    assert_eq!(b.bytes, b"abc".to_vec());
}

#[test]
fn sha256_of_empty_input() {
    let b = Bundle::from_bytes(Vec::new());
    assert_eq!(
        b.content_hash_hex(),
        "e3b0c44298fc1c149afbf4c8996fb92427ae41e4649b934ca495991b7852b855"
    );
    assert_eq!(b.chunk_count(), 0);
}

#[test]
fn hex_is_lowercase_two_digits_per_byte() {
    assert_eq!(Bundle::from_bytes(vec![0x00, 0x0f, 0xab, 0xff]).chunk_hex(0), "000fabff");
}

#[test]
fn chunk_counts_round_up() {
    assert_eq!(Bundle::from_bytes(vec![1u8; 1]).chunk_count(), 1);
    assert_eq!(Bundle::from_bytes(vec![1u8; CHUNK_SIZE]).chunk_count(), 1);
    assert_eq!(Bundle::from_bytes(vec![1u8; CHUNK_SIZE + 1]).chunk_count(), 2);
    assert_eq!(Bundle::from_bytes(vec![1u8; 3 * CHUNK_SIZE]).chunk_count(), 3);
}

#[test]
fn chunks_reassemble_to_the_bytes() {
    let bytes: Vec<u8> = (0..(2 * CHUNK_SIZE + 100)).map(|i| (i % 251) as u8).collect();
    let b = Bundle::from_bytes(bytes.clone());
    assert_eq!(b.chunks.len(), 3);
    assert_eq!(b.chunks[0].len(), CHUNK_SIZE);
    assert_eq!(b.chunks[1].len(), CHUNK_SIZE);
    assert_eq!(b.chunks[2].len(), 100);
    let joined: Vec<u8> = b.chunks.concat();
    assert_eq!(joined, bytes);
    assert_eq!(split_chunks(&bytes), b.chunks);
}

#[test]
fn chunk_hex_encodes_one_chunk() {
    let b = Bundle::from_bytes(vec![0xde, 0xad, 0xbe, 0xef]);
    assert_eq!(b.chunk_hex(0), "deadbeef");
}

#[test]
fn entry_names_use_forward_slashes() {
    assert_eq!(entry_name("assets\\js\\app.js"), "assets/js/app.js");
    assert_eq!(entry_name("index.html"), "index.html");
}

fn tree() -> Vec<TreeEntry> {
    vec![
        TreeEntry { relative_path: "index.html".to_string(), is_dir: false, contents: b"<html></html>".to_vec() },
        TreeEntry { relative_path: "assets".to_string(), is_dir: true, contents: Vec::new() },
        TreeEntry { relative_path: "assets\\app.js".to_string(), is_dir: false, contents: b"console.log(1)".to_vec() },
    ]
}

#[test]
fn from_dir_zips_every_entry_with_its_relative_path() {
    let b = match Bundle::from_dir(&tree()) {
        Ok(b) => b,
        Err(_) => panic!("zipping failed"),
    };
    let mut archive = zip::ZipArchive::new(std::io::Cursor::new(b.bytes.clone())).unwrap();
    let mut names: Vec<String> = (0..archive.len()).map(|i| archive.by_index(i).unwrap().name().unwrap().to_string()).collect();
    names.sort();
    assert_eq!(names, vec!["assets/".to_string(), "assets/app.js".to_string(), "index.html".to_string()]);
    let mut f = archive.by_name("assets/app.js").unwrap();
    let mut s = String::new();
    f.read_to_string(&mut s).unwrap();
    assert_eq!(s, "console.log(1)");
    drop(f);
    let again = Bundle::from_bytes(b.bytes.clone());
    assert_eq!(again.content_hash, b.content_hash);
    assert_eq!(b.chunk_count(), 1);
}

#[test]
fn zip_rejects_a_duplicate_file_name() {
    let entries = vec![
        TreeEntry { relative_path: "a.txt".to_string(), is_dir: false, contents: b"1".to_vec() },
        TreeEntry { relative_path: "a.txt".to_string(), is_dir: false, contents: b"2".to_vec() },
    ];
    match zip_tree(&entries) {
        Err(ArchiveError::Entry { name, .. }) => assert_eq!(name, "a.txt"),
        _ => panic!("a duplicate name must be refused"),
    }
}

#[test]
fn archive_lists_entries_in_walk_order_with_their_data() {
    let mut entries = tree();
    entries.push(TreeEntry { relative_path: "empty.txt".to_string(), is_dir: false, contents: Vec::new() });
    let bytes = match zip_tree(&entries) {
        Ok(b) => b,
        Err(_) => panic!("zipping failed"),
    };
    let mut archive = zip::ZipArchive::new(std::io::Cursor::new(bytes)).unwrap();
    let mut listed: Vec<(String, Vec<u8>)> = Vec::new();
    for i in 0..archive.len() {
        let mut f = archive.by_index(i).unwrap();
        let name = f.name().unwrap().to_string();
        let mut data = Vec::new();
        f.read_to_end(&mut data).unwrap();
        listed.push((name, data));
    }
    assert_eq!(
        listed,
        vec![
            ("index.html".to_string(), b"<html></html>".to_vec()),
            ("assets/".to_string(), Vec::new()),
            ("assets/app.js".to_string(), b"console.log(1)".to_vec()),
            ("empty.txt".to_string(), Vec::new()),
        ]
    );
}
