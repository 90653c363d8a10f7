use create_broken_files::cli::Cli;
use create_broken_files::content::Content;
use create_broken_files::naming::read_file_name_extension;
use create_broken_files::task::{FileTask, Reply, Request};
use rand::rngs::StdRng;
use rand::SeedableRng;

fn settings(copies: u32, character_mode: bool, connect: bool, words: &[&str]) -> Cli {
    Cli {
        input_path: "in".to_string(),
        output_path: "out".to_string(),
        number_of_broken_files: copies,
        character_mode,
        connect_multiple_files: connect,
        special_words: words.iter().map(|w| w.to_string()).collect(),
    }
}

/// What a run of one task asked the driver to do.
struct Run {
    loads: Vec<bool>,
    probes: Vec<String>,
    fetches: Vec<Vec<String>>,
    stores: Vec<(String, Content)>,
}

/// Drives a task to its end. `source` is what reading the file gives,
/// `taken` are the paths that exist, and every donor gives `donation`.
fn drive(
    full_name: &str,
    settings: &Cli,
    files: &[String],
    source: Option<Content>,
    taken: &[String],
    donation: &[u8],
) -> Option<Run> {
    drive_seeded(full_name, settings, files, source, taken, donation, 20_241)
}

fn drive_seeded(
    full_name: &str,
    settings: &Cli,
    files: &[String],
    source: Option<Content>,
    taken: &[String],
    donation: &[u8],
    seed: u64,
) -> Option<Run> {
    let rng = StdRng::seed_from_u64(seed);
    let mut task = FileTask::new(full_name, settings, rng)?;
    let mut run = Run { loads: Vec::new(), probes: Vec::new(), fetches: Vec::new(), stores: Vec::new() };
    let mut source = source;
    let mut reply = Reply::Start;
    for _ in 0..100_000 {
        let (next, request) = task.advance(reply, files);
        task = next;
        reply = match request {
            Request::Load(as_text) => {
                run.loads.push(as_text);
                Reply::Loaded(source.take())
            },
            Request::Probe(path) => {
                let exists = taken.contains(&path);
                run.probes.push(path);
                Reply::Probed(exists)
            },
            Request::Fetch(donors) => {
                let parts = donors.iter().map(|_| donation.to_vec()).collect();
                run.fetches.push(donors);
                Reply::Fetched(parts)
            },
            Request::Store(path, content) => {
                run.stores.push((path, content));
                Reply::Stored
            },
            Request::Finish => return Some(run),
        };
    }
    panic!("the task did not end");
}

fn index_of(path: &str) -> u32 {
    let after = path.split("_IDX_").nth(1).unwrap();
    after.split("_RAND_").next().unwrap().parse().unwrap()
}

#[test]
fn a_file_without_extension_gets_no_task() {
    let settings = settings(3, false, false, &[]);
    assert!(FileTask::new("dir/noext", &settings, StdRng::seed_from_u64(7)).is_none());
    assert!(FileTask::new(".hidden", &settings, StdRng::seed_from_u64(7)).is_none());
    assert!(FileTask::new("", &settings, StdRng::seed_from_u64(7)).is_none());
    assert!(FileTask::new("dir/file.txt", &settings, StdRng::seed_from_u64(7)).is_some());
    assert!(drive("dir/noext", &settings, &[], None, &[], &[]).is_none());
}

#[test]
fn a_task_first_asks_for_its_source() {
    let task = FileTask::new("a.bin", &settings(1, false, false, &[]), StdRng::seed_from_u64(7)).unwrap();
    let (_, request) = task.advance(Reply::Start, &[]);
    assert!(matches!(request, Request::Load(false)));
    let task = FileTask::new("a.txt", &settings(1, true, false, &[]), StdRng::seed_from_u64(7)).unwrap();
    let (_, request) = task.advance(Reply::Stored, &[]);
    assert!(matches!(request, Request::Load(true)));
}

#[test]
fn an_unreadable_source_ends_the_task() {
    let run = drive("a.bin", &settings(5, false, false, &[]), &[], None, &[], &[]).unwrap();
    assert_eq!(run.loads, vec![false]);
    assert!(run.probes.is_empty());
    assert!(run.fetches.is_empty());
    assert!(run.stores.is_empty());
}

#[test]
fn zero_copies_give_no_output() {
    for character_mode in [false, true] {
        for connect in [false, true] {
            let source = if character_mode {
                Content::Text("some text".chars().collect())
            } else {
                Content::Bytes(b"some bytes".to_vec())
            };
            let files = vec!["a.x".to_string(), "b.x".to_string()];
            let run = drive(
                "a.x",
                &settings(0, character_mode, connect, &["w"]),
                &files,
                Some(source),
                &[],
                b"zz",
            )
            .unwrap();
            assert_eq!(run.loads, vec![character_mode]);
            assert!(run.probes.is_empty());
            assert!(run.fetches.is_empty());
            assert!(run.stores.is_empty());
        }
    }
}

#[test]
fn every_copy_is_named_once_and_in_order() {
    let source: Vec<u8> = (0..200).collect();
    let run = drive(
        "dir/data.bin",
        &settings(40, false, false, &[]),
        &["dir/data.bin".to_string()],
        Some(Content::Bytes(source.clone())),
        &[],
        &[],
    )
    .unwrap();
    assert_eq!(run.probes.len(), 40);
    for (copy, path) in run.probes.iter().enumerate() {
        assert!(path.starts_with("out/data_IDX_"));
        assert!(path.ends_with(".bin"));
        assert_eq!(index_of(path), copy as u32);
    }
    assert!(run.stores.len() <= 40);
    assert!(!run.stores.is_empty());
    let mut last: Option<u32> = None;
    for (path, content) in &run.stores {
        assert!(run.probes.contains(path));
        let index = index_of(path);
        assert!(last.map_or(true, |l| l < index));
        last = Some(index);
        match content {
            Content::Bytes(bytes) => {
                assert!(!bytes.is_empty());
                assert!(bytes.len() <= source.len());
            },
            Content::Text(_) => panic!("bytes became text"),
        }
    }
}

#[test]
fn every_output_has_the_extension_of_its_source() {
    for full_name in ["x/in.dir/photo.JPEG", "a.tar.gz", ".profile.bak", "odd."] {
        let (_, extension) = read_file_name_extension(full_name).unwrap();
        let run = drive(
            full_name,
            &settings(20, false, false, &[]),
            &[],
            Some(Content::Bytes(vec![1; 64])),
            &[],
            &[],
        )
        .unwrap();
        assert!(!run.stores.is_empty());
        for (path, _) in &run.stores {
            let (_, stored) = read_file_name_extension(path).unwrap();
            assert_eq!(stored, extension);
        }
    }
}

#[test]
fn a_taken_path_is_never_written_to() {
    let settings = settings(1, false, false, &[]);
    for round in 0..50 {
        let task = FileTask::new("a.bin", &settings, StdRng::seed_from_u64(round)).unwrap();
        let (task, _) = task.advance(Reply::Start, &[]);
        let (mut task, mut request) =
            task.advance(Reply::Loaded(Some(Content::Bytes(vec![3; 30]))), &[]);
        let mut refused: Vec<String> = Vec::new();
        for _ in 0..5 {
            let Request::Probe(path) = request else { panic!("no probe") };
            assert_eq!(index_of(&path), 0);
            assert!(!refused.contains(&path));
            refused.push(path);
            let (next, again) = task.advance(Reply::Probed(true), &[]);
            task = next;
            request = again;
        }
        let Request::Probe(free) = request else { panic!("no probe") };
        let (_, request) = task.advance(Reply::Probed(false), &[]);
        match request {
            Request::Store(path, _) => assert_eq!(path, free),
            Request::Finish => {},
            _ => panic!("neither stored nor given up"),
        }
    }
}

#[test]
fn a_single_byte_source_is_copied_as_it_is_or_skipped() {
    let run = drive(
        "one.b",
        &settings(300, false, false, &[]),
        &["one.b".to_string()],
        Some(Content::Bytes(vec![0x41])),
        &[],
        &[],
    )
    .unwrap();
    assert_eq!(run.probes.len(), 300);
    assert!(!run.stores.is_empty() && run.stores.len() < 300);
    for (_, content) in &run.stores {
        match content {
            Content::Bytes(bytes) => assert_eq!(bytes, &vec![0x41]),
            Content::Text(_) => panic!("bytes became text"),
        }
    }
}

#[test]
fn an_empty_source_is_named_but_never_stored() {
    let run =
        drive("e.b", &settings(7, false, false, &[]), &[], Some(Content::Bytes(Vec::new())), &[], &[])
            .unwrap();
    assert_eq!(run.probes.len(), 7);
    assert!(run.stores.is_empty());
}

#[test]
fn text_without_words_never_grows() {
    let source: Vec<char> = "zażółć gęślą jaźń, and more text behind it".chars().collect();
    let run = drive(
        "t.txt",
        &settings(100, true, false, &[]),
        &["t.txt".to_string()],
        Some(Content::Text(source.clone())),
        &[],
        &[],
    )
    .unwrap();
    assert!(!run.stores.is_empty());
    for (_, content) in &run.stores {
        match content {
            Content::Text(chars) => assert!(!chars.is_empty() && chars.len() <= source.len()),
            Content::Bytes(_) => panic!("text became bytes"),
        }
    }
}

#[test]
fn text_with_words_grows_by_tokens_only() {
    let source: Vec<char> = "0123456789".repeat(3).chars().collect();
    let run = drive(
        "t.txt",
        &settings(200, true, false, &["KEY"]),
        &["t.txt".to_string()],
        Some(Content::Text(source.clone())),
        &[],
        &[],
    )
    .unwrap();
    let mut grown = false;
    for (_, content) in &run.stores {
        match content {
            Content::Text(chars) => {
                assert!(!chars.is_empty());
                assert!(chars.len() <= source.len() + 4 * 7);
                grown = grown || chars.len() > source.len();
            },
            Content::Bytes(_) => panic!("text became bytes"),
        }
    }
    assert!(grown);
}

#[test]
fn splicing_with_a_single_file_is_off() {
    let run = drive(
        "only.b",
        &settings(300, false, true, &[]),
        &["only.b".to_string()],
        Some(Content::Bytes(vec![5; 20])),
        &[],
        b"donated",
    )
    .unwrap();
    assert!(run.fetches.is_empty());
    for (_, content) in &run.stores {
        match content {
            Content::Bytes(bytes) => assert!(bytes.len() <= 20),
            Content::Text(_) => panic!("bytes became text"),
        }
    }
}

#[test]
fn splicing_appends_what_the_donors_gave() {
    let files: Vec<String> = (0..10).map(|i| format!("f{i}.b")).collect();
    let run = drive(
        "f0.b",
        &settings(2000, false, true, &[]),
        &files,
        Some(Content::Bytes(vec![5; 4])),
        &[],
        &[0xee; 100],
    )
    .unwrap();
    assert!(!run.fetches.is_empty());
    assert!(run.fetches.len() < run.stores.len());
    for donors in &run.fetches {
        assert!((1..=7).contains(&donors.len()));
        for (i, donor) in donors.iter().enumerate() {
            assert!(files.contains(donor));
            assert!(!donors[..i].contains(donor));
        }
    }
    let mut spliced = 0;
    for (_, content) in &run.stores {
        match content {
            Content::Bytes(bytes) => {
                if bytes.len() > 4 {
                    spliced += 1;
                    let donated = bytes.len() - bytes.iter().take_while(|b| **b == 5).count();
                    assert!(donated >= 100 && donated <= 705);
                    assert!(bytes.len() % 100 <= 4);
                    assert!(bytes.iter().filter(|b| **b != 0xee && **b != 5).count() <= 5);
                }
            },
            Content::Text(_) => panic!("bytes became text"),
        }
    }
    assert_eq!(spliced, run.fetches.len());
}

#[test]
fn splicing_into_text_decodes_the_donation() {
    let files: Vec<String> = (0..3).map(|i| format!("f{i}.txt")).collect();
    let run = drive(
        "f0.txt",
        &settings(1000, true, true, &[]),
        &files,
        Some(Content::Text(vec!['a'; 3])),
        &[],
        &[b'x', 0xff],
    )
    .unwrap();
    assert!(!run.fetches.is_empty());
    let mut spliced = 0;
    for (_, content) in &run.stores {
        match content {
            Content::Text(chars) => {
                if chars.len() > 3 || chars.iter().any(|c| *c != 'a') {
                    spliced += 1;
                    assert!(chars.len() >= 3 && chars.len() <= 3 + 2 * 3);
                    let replaced = chars.iter().filter(|c| !"ax\u{fffd}".contains(**c)).count();
                    assert!(replaced <= chars.len() / 5);
                    if chars.len() < 5 {
                        let own = chars.iter().take_while(|c| **c == 'a').count();
                        assert!((1..=3).contains(&own));
                        assert_eq!((chars.len() - own) % 2, 0);
                        for pair in chars[own..].chunks(2) {
                            assert_eq!(pair, ['x', '\u{fffd}']);
                        }
                    }
                }
            },
            Content::Bytes(_) => panic!("text became bytes"),
        }
    }
    assert_eq!(spliced, run.fetches.len());
}

#[test]
fn a_report_out_of_turn_ends_the_task() {
    let settings = settings(3, false, false, &[]);
    let task = FileTask::new("a.bin", &settings, StdRng::seed_from_u64(7)).unwrap();
    let (task, _) = task.advance(Reply::Start, &[]);
    let (task, request) = task.advance(Reply::Probed(false), &[]);
    assert!(matches!(request, Request::Finish));
    let (_, request) = task.advance(Reply::Loaded(Some(Content::Bytes(vec![1]))), &[]);
    assert!(matches!(request, Request::Finish));

    let task = FileTask::new("a.bin", &settings, StdRng::seed_from_u64(7)).unwrap();
    let (task, _) = task.advance(Reply::Start, &[]);
    let (task, request) = task.advance(Reply::Loaded(Some(Content::Bytes(vec![1; 9]))), &[]);
    assert!(matches!(request, Request::Probe(_)));
    let (task, request) = task.advance(Reply::Fetched(vec![vec![1]]), &[]);
    assert!(matches!(request, Request::Finish));
    let (_, request) = task.advance(Reply::Stored, &[]);
    assert!(matches!(request, Request::Finish));
}

#[test]
fn a_failed_write_does_not_stop_the_other_copies() {
    let run = drive(
        "a.bin",
        &settings(50, false, false, &[]),
        &[],
        Some(Content::Bytes(vec![1; 50])),
        &[],
        &[],
    )
    .unwrap();
    assert_eq!(run.probes.len(), 50);
    assert!(run.stores.len() > 1);
}

fn same_content(a: &Content, b: &Content) -> bool {
    match (a, b) {
        (Content::Bytes(x), Content::Bytes(y)) => x == y,
        (Content::Text(x), Content::Text(y)) => x == y,
        _ => false,
    }
}

#[test]
fn runs_from_the_same_seed_give_the_same_copies() {
    for character_mode in [false, true] {
        let source = || {
            if character_mode {
                Content::Text("the same text goes in twice, and the same copies come out".chars().collect())
            } else {
                Content::Bytes((0..=255).collect())
            }
        };
        let settings = settings(60, character_mode, false, &["let", ";"]);
        let files = vec!["in/s.src".to_string()];
        for seed in [0u64, 1, 0xdead_beef] {
            let first = drive_seeded("in/s.src", &settings, &files, Some(source()), &[], &[], seed).unwrap();
            let second = drive_seeded("in/s.src", &settings, &files, Some(source()), &[], &[], seed).unwrap();
            assert!(!first.stores.is_empty());
            assert_eq!(first.probes, second.probes);
            assert_eq!(first.stores.len(), second.stores.len());
            for ((path, content), (again, same)) in first.stores.iter().zip(second.stores.iter()) {
                assert_eq!(path, again);
                assert!(same_content(content, same));
            }
        }
    }
}

#[test]
fn runs_from_different_seeds_give_different_copies() {
    let settings = settings(60, false, false, &[]);
    let source = || Content::Bytes((0..=255).collect());
    let first = drive_seeded("in/s.src", &settings, &[], Some(source()), &[], &[], 1).unwrap();
    let second = drive_seeded("in/s.src", &settings, &[], Some(source()), &[], &[], 2).unwrap();
    assert_ne!(first.probes, second.probes);
    let same = first.stores.len() == second.stores.len()
        && first.stores.iter().zip(second.stores.iter()).all(|(a, b)| same_content(&a.1, &b.1));
    assert!(!same);
}

#[test]
fn content_of_the_other_mode_ends_the_task() {
    let task = FileTask::new("a.txt", &settings(3, true, false, &[]), StdRng::seed_from_u64(7)).unwrap();
    let (task, request) = task.advance(Reply::Start, &[]);
    assert!(matches!(request, Request::Load(true)));
    let (task, request) = task.advance(Reply::Loaded(Some(Content::Bytes(vec![1; 9]))), &[]);
    assert!(matches!(request, Request::Finish));
    let (_, request) = task.advance(Reply::Probed(false), &[]);
    assert!(matches!(request, Request::Finish));

    let task = FileTask::new("a.bin", &settings(3, false, false, &[]), StdRng::seed_from_u64(7)).unwrap();
    let (task, request) = task.advance(Reply::Start, &[]);
    assert!(matches!(request, Request::Load(false)));
    let (_, request) = task.advance(Reply::Loaded(Some(Content::Text(vec!['a'; 9]))), &[]);
    assert!(matches!(request, Request::Finish));

    let task = FileTask::new("a.txt", &settings(3, true, false, &[]), StdRng::seed_from_u64(7)).unwrap();
    let (task, _) = task.advance(Reply::Start, &[]);
    let (_, request) = task.advance(Reply::Loaded(Some(Content::Text(vec!['a'; 9]))), &[]);
    assert!(matches!(request, Request::Probe(_)));
}

#[test]
fn without_splicing_no_donors_are_asked_for() {
    let files: Vec<String> = (0..10).map(|i| format!("f{i}.b")).collect();
    for seed in 0..5 {
        let run = drive_seeded(
            "f0.b",
            &settings(400, false, false, &[]),
            &files,
            Some(Content::Bytes(vec![5; 4])),
            &[],
            &[0xee; 100],
            seed,
        )
        .unwrap();
        assert!(run.fetches.is_empty());
        for (_, content) in &run.stores {
            match content {
                Content::Bytes(bytes) => assert!(!bytes.is_empty() && bytes.len() <= 4),
                Content::Text(_) => panic!("bytes became text"),
            }
        }
    }
}

#[test]
fn stored_content_is_in_the_mode_asked_for() {
    let files: Vec<String> = (0..4).map(|i| format!("f{i}.x")).collect();
    for (character_mode, connect) in [(false, false), (false, true), (true, false), (true, true)] {
        let source = if character_mode {
            Content::Text("text of some length".chars().collect())
        } else {
            Content::Bytes(b"bytes of some length".to_vec())
        };
        let run = drive_seeded(
            "f0.x",
            &settings(300, character_mode, connect, &["w"]),
            &files,
            Some(source),
            &[],
            b"given",
            5,
        )
        .unwrap();
        assert!(!run.stores.is_empty());
        assert_eq!(run.fetches.is_empty(), !connect);
        for (_, content) in &run.stores {
            assert_eq!(content.is_text(), character_mode);
        }
    }
}
