use precompress::algorithm::{Algorithm, Algorithms};
use precompress::dispatch::{
    default_extension_list, is_default_extension, is_listed, queue_capacity, Compressor, FileEntry,
    QUEUE_FLOOR,
};
use precompress::quality::Quality;
use precompress::stats::{Outcome, Stats};
use precompress::worker::{Worker, WorkerState};

fn file(path: &str, size: u64) -> FileEntry {
    FileEntry { path: path.to_owned(), is_file: true, is_symlink: false, size }
}

fn gzip_and_zstd() -> Algorithms {
    Algorithms { brotli: false, deflate: false, gzip: true, zstd: true }
}

fn compressor(min_size: u64, algorithms: Algorithms, extensions: Option<Vec<&str>>) -> Compressor {
    Compressor::new(
        4,
        min_size,
        Quality::default(),
        algorithms,
        extensions.map(|list| list.into_iter().map(|s| s.to_owned()).collect()),
    )
}

#[test]
fn queue_capacity_is_twice_the_workers_but_at_least_the_floor() {
    assert_eq!(QUEUE_FLOOR, 128);
    assert_eq!(queue_capacity(0), 128);
    assert_eq!(queue_capacity(1), 128);
    assert_eq!(queue_capacity(64), 128);
    assert_eq!(queue_capacity(65), 130);
    assert_eq!(queue_capacity(1000), 2000);
    assert_eq!(queue_capacity(usize::MAX / 2), usize::MAX - 1);
    assert_eq!(compressor(0, gzip_and_zstd(), None).capacity(), 128);
}

#[test]
fn the_default_extensions() {
    let expected = [
        "atom", "conf", "css", "eot", "htm", "html", "js", "json", "jsx", "md", "otf", "rss",
        "scss", "sitemap", "svg", "text", "ts", "tsx", "ttf", "txt", "wasm", "xml", "yaml",
    ];
    assert_eq!(default_extension_list(), expected.to_vec());
    for ext in expected {
        assert!(is_default_extension(ext), "{}", ext);
    }
    for ext in ["", "png", "gz", "br", "zst", "JS", "htmlx", "tx"] {
        assert!(!is_default_extension(ext), "{}", ext);
    }
}

#[test]
fn is_listed_looks_for_the_exact_text() {
    let list = vec![String::from("foo"), String::from("bar")];
    assert!(is_listed("foo", &list));
    assert!(is_listed("bar", &list));
    assert!(!is_listed("fo", &list));
    assert!(!is_listed("Foo", &list));
    assert!(!is_listed("foo", &vec![]));
}

#[test]
fn should_compress_goes_by_the_default_list() {
    let c = compressor(0, gzip_and_zstd(), None);
    assert!(c.should_compress("index.html"));
    assert!(c.should_compress("static/app.min.js"));
    assert!(!c.should_compress("photo.png"));
    assert!(!c.should_compress("archive.tar.gz"));
    assert!(!c.should_compress("Makefile"));
    assert!(!c.should_compress(".css"));
    assert!(c.should_compress("style.css/"));
    assert!(c.should_compress("style.css/."));
    assert!(!c.should_compress("style.css/.."));
}

#[test]
fn should_compress_goes_by_the_configured_list_where_there_is_one() {
    let c = compressor(0, gzip_and_zstd(), Some(vec!["png", "log"]));
    assert!(c.should_compress("photo.png"));
    assert!(c.should_compress("var/app.log"));
    assert!(!c.should_compress("index.html"));
    let none = compressor(0, gzip_and_zstd(), Some(vec![]));
    assert!(!none.should_compress("index.html"));
}

#[test]
fn an_eligible_file_gets_one_job_per_enabled_algorithm() {
    let c = compressor(1024, Algorithms::all_enabled(), None);
    let jobs = c.dispatch(&file("site/index.html", 4096));
    assert_eq!(
        jobs,
        vec![
            (Algorithm::Brotli, String::from("site/index.html")),
            (Algorithm::Deflate, String::from("site/index.html")),
            (Algorithm::Gzip, String::from("site/index.html")),
            (Algorithm::Zstd, String::from("site/index.html")),
        ]
    );
}

#[test]
fn a_file_below_the_least_size_gets_no_job() {
    let c = compressor(1024, Algorithms::all_enabled(), None);
    assert!(c.dispatch(&file("a.txt", 1023)).is_empty());
    assert!(c.dispatch(&file("a.txt", 0)).is_empty());
    assert_eq!(c.dispatch(&file("a.txt", 1024)).len(), 4);
    assert!(!c.is_eligible(&file("a.txt", 1023)));
    assert!(c.is_eligible(&file("a.txt", 1024)));
}

#[test]
fn a_least_size_of_zero_lets_every_size_through() {
    let c = compressor(0, gzip_and_zstd(), None);
    assert_eq!(c.dispatch(&file("a.txt", 0)).len(), 2);
}

#[test]
fn a_file_with_an_extension_off_the_list_gets_no_job() {
    let c = compressor(0, Algorithms::all_enabled(), None);
    assert!(c.dispatch(&file("photo.png", 5000)).is_empty());
    assert!(c.dispatch(&file("a.txt.gz", 5000)).is_empty());
    assert!(c.dispatch(&file("README", 5000)).is_empty());
}

#[test]
fn links_and_what_is_no_regular_file_get_no_job() {
    let c = compressor(0, Algorithms::all_enabled(), None);
    let link = FileEntry { path: String::from("a.txt"), is_file: true, is_symlink: true, size: 9 };
    let dir = FileEntry { path: String::from("d.txt"), is_file: false, is_symlink: false, size: 9 };
    assert!(c.dispatch(&link).is_empty());
    assert!(c.dispatch(&dir).is_empty());
}

#[test]
fn no_enabled_algorithm_means_no_job() {
    let c = compressor(0, Algorithms::empty(), None);
    assert!(c.is_eligible(&file("a.txt", 10)));
    assert!(c.dispatch(&file("a.txt", 10)).is_empty());
}

#[test]
fn precompress_emits_the_jobs_entry_after_entry() {
    let c = compressor(10, gzip_and_zstd(), None);
    let entries = vec![file("b.css", 10), file("skip.png", 10), file("a.js", 9), file("a.js", 11)];
    assert_eq!(
        c.precompress(&entries),
        vec![
            (Algorithm::Gzip, String::from("b.css")),
            (Algorithm::Zstd, String::from("b.css")),
            (Algorithm::Gzip, String::from("a.js")),
            (Algorithm::Zstd, String::from("a.js")),
        ]
    );
    assert!(c.precompress(&vec![]).is_empty());
}

#[test]
fn two_text_files_one_below_the_least_size() {
    let c = compressor(1024, gzip_and_zstd(), None);
    let entries = vec![file("a.txt", 2000), file("b.txt", 500)];
    let jobs = c.precompress(&entries);
    assert_eq!(
        jobs,
        vec![(Algorithm::Gzip, String::from("a.txt")), (Algorithm::Zstd, String::from("a.txt"))]
    );
    let source = vec![b'x'; 2000];
    let mut worker = Worker::new(c.quality);
    let mut written = Vec::new();
    for (algorithm, path) in &jobs {
        let destination = worker.begin(*algorithm, path).unwrap();
        let mut output = Vec::new();
        worker.encode(&source, &mut output).unwrap();
        let outcome = Outcome::Done {
            elapsed: 1,
            source_size: source.len() as u64,
            written: output.len() as u64,
        };
        assert!(worker.can_complete(outcome));
        worker.complete(outcome);
        written.push(destination);
    }
    assert_eq!(written, vec![String::from("a.txt.gz"), String::from("a.txt.zst")]);
    assert_eq!(worker.phase(), WorkerState::Idle);
    let stats = worker.close();
    assert_eq!(worker.phase(), WorkerState::Terminated);
    assert_eq!(stats.num_files, 2);
    assert_eq!(stats.num_errors, 0);
    assert!(stats.gzip.saved_bytes > 0);
    assert!(stats.zstd.saved_bytes > 0);
    assert_eq!(stats.brotli.total_bytes, 0);
}

#[test]
fn files_plus_errors_are_the_jobs_dispatched() {
    let c = compressor(100, Algorithms::all_enabled(), None);
    let entries: Vec<FileEntry> =
        (0..10u64).map(|i| file(&format!("dir/f{}.txt", i), 95 + i)).collect();
    let jobs = c.precompress(&entries);
    assert_eq!(jobs.len(), 5 * 4);
    let mut worker = Worker::new(c.quality);
    let mut failed = 0;
    for (i, (algorithm, path)) in jobs.iter().enumerate() {
        assert!(worker.begin(*algorithm, path).is_some());
        let outcome = if i % 3 == 0 {
            failed += 1;
            Outcome::Failed
        } else {
            Outcome::Done { elapsed: 5, source_size: 100, written: 60 }
        };
        worker.complete(outcome);
    }
    let stats = worker.close();
    assert_eq!(stats.num_errors, failed);
    assert_eq!(stats.num_files, jobs.len() as u64 - failed);
}

#[test]
fn finish_sums_what_the_workers_hand_back() {
    let c = compressor(100, Algorithms::all_enabled(), None);
    let entries: Vec<FileEntry> =
        (0..6u64).map(|i| file(&format!("f{}.css", i), 98 + i)).collect();
    let jobs = c.precompress(&entries);
    assert_eq!(jobs.len(), 4 * 4);
    let mut workers = vec![Worker::new(c.quality), Worker::new(c.quality), Worker::new(c.quality)];
    let mut failed = 0;
    for (i, (algorithm, path)) in jobs.iter().enumerate() {
        let worker = &mut workers[(i * 5 + 1) % 3];
        assert!(worker.begin(*algorithm, path).is_some());
        if i % 4 == 1 {
            failed += 1;
            worker.complete(Outcome::Failed);
        } else {
            worker.complete(Outcome::Done { elapsed: 3, source_size: 200, written: 50 });
        }
    }
    let parts: Vec<Stats> = workers.iter_mut().map(|w| w.close()).collect();
    let stats = c.finish(&parts);
    assert_eq!(stats.num_errors, failed);
    assert_eq!(stats.num_files, 4 * 4 - failed);
    assert_eq!(failed, 4);
    assert_eq!(stats.brotli.saved_bytes, 150 * 4);
    assert_eq!(stats.deflate.saved_bytes, 0);
    assert_eq!(stats.gzip.total_bytes, 50 * 4);
    assert_eq!(stats.zstd.total_time, 3 * 4);
}

#[test]
fn finish_of_no_worker_is_zero() {
    let c = compressor(100, Algorithms::all_enabled(), None);
    assert_eq!(c.finish(&vec![]), Stats::default());
}

#[test]
fn an_ineligible_entry_changes_nothing() {
    let c = compressor(1024, gzip_and_zstd(), None);
    let with = vec![file("a.txt", 2000), file("small.txt", 10), file("b.png", 5000), file("c.js", 1024)];
    let without = vec![file("a.txt", 2000), file("c.js", 1024)];
    assert_eq!(c.precompress(&with), c.precompress(&without));
}
