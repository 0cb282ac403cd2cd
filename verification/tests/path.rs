use std::path::Path;

use precompress::algorithm::Algorithm;
use precompress::path::{
    body_begin, component_back, destination_path, directory_of, extension_of, file_name_of,
    has_file_name, name_span, trim_back,
};

fn owned(text: &str) -> Option<String> {
    Some(String::from(text))
}

#[test]
fn the_body_begins_after_a_root_or_a_leading_dot() {
    assert_eq!(body_begin(""), 0);
    assert_eq!(body_begin("a/b"), 0);
    assert_eq!(body_begin("/a"), 1);
    assert_eq!(body_begin("/"), 1);
    assert_eq!(body_begin("."), 1);
    assert_eq!(body_begin("./a"), 1);
    assert_eq!(body_begin(".a"), 0);
    assert_eq!(body_begin(".."), 0);
}

#[test]
fn trim_back_drops_slashes_and_dots_at_the_end() {
    assert_eq!(trim_back("a/b/", 0, 4), 3);
    assert_eq!(trim_back("a/b/.", 0, 5), 3);
    assert_eq!(trim_back("a/b//./", 0, 7), 3);
    assert_eq!(trim_back("a/b", 0, 3), 3);
    assert_eq!(trim_back("a/b..", 0, 5), 5);
    assert_eq!(trim_back("a/..", 0, 4), 4);
    assert_eq!(trim_back("/.", 1, 2), 1);
    assert_eq!(trim_back("/..", 1, 3), 3);
    assert_eq!(trim_back("//", 1, 2), 1);
    assert_eq!(trim_back("./.", 1, 3), 1);
    assert_eq!(trim_back("a//b", 0, 2), 1);
}

#[test]
fn component_back_goes_to_the_last_slash() {
    assert_eq!(component_back("dir/a.txt", 0, 9), 4);
    assert_eq!(component_back("a.txt", 0, 5), 0);
    assert_eq!(component_back("/a", 1, 2), 1);
    assert_eq!(component_back("a/b/", 0, 3), 2);
    assert_eq!(component_back("žluť/ouč", 0, 8), 5);
}

#[test]
fn the_span_of_the_last_component() {
    assert_eq!(name_span("a.txt"), (0, 5));
    assert_eq!(name_span("dir/a.txt"), (4, 9));
    assert_eq!(name_span("dir/a.txt/"), (4, 9));
    assert_eq!(name_span("dir/a.txt/."), (4, 9));
    assert_eq!(name_span("/"), (1, 1));
    assert_eq!(name_span(""), (0, 0));
    assert_eq!(name_span("."), (1, 1));
}

#[test]
fn paths_with_and_without_a_file_name() {
    for path in
        ["a.txt", "dir/a.txt", "/a", "./a", "a/..b", "a/...", ".hidden", "a/.b", "dir/", "a/.", "a/b/", "a/b/./"]
    {
        assert!(has_file_name(path), "{:?}", path);
    }
    for path in ["", "/", ".", "..", "./", "./.", "/.", "a/..", "a/../", "//", "../."] {
        assert!(!has_file_name(path), "{:?}", path);
    }
}

#[test]
fn file_name_is_the_last_component() {
    assert_eq!(file_name_of("/usr/bin/"), owned("bin"));
    assert_eq!(file_name_of("tmp/foo.txt"), owned("foo.txt"));
    assert_eq!(file_name_of("foo.txt/."), owned("foo.txt"));
    assert_eq!(file_name_of("foo.txt/.//"), owned("foo.txt"));
    assert_eq!(file_name_of("foo.txt/.."), None);
    assert_eq!(file_name_of("/"), None);
}

#[test]
fn extension_is_what_follows_the_last_dot_of_the_name() {
    assert_eq!(extension_of("a.txt"), owned("txt"));
    assert_eq!(extension_of("dir/app.min.js"), owned("js"));
    assert_eq!(extension_of("dir.d/readme"), None);
    assert_eq!(extension_of("a."), owned(""));
    assert_eq!(extension_of(".bashrc"), None);
    assert_eq!(extension_of(".config.json"), owned("json"));
    assert_eq!(extension_of("dir/.hidden"), None);
    assert_eq!(extension_of(""), None);
    assert_eq!(extension_of(".."), None);
    assert_eq!(extension_of("a/.."), None);
    assert_eq!(extension_of("kůň.žluť"), owned("žluť"));
}

#[test]
fn extension_looks_past_a_slash_or_dot_at_the_end() {
    assert_eq!(extension_of("a.txt/"), owned("txt"));
    assert_eq!(extension_of("style.css/"), owned("css"));
    assert_eq!(extension_of("style.css/."), owned("css"));
    assert_eq!(extension_of("dir/style.css//./"), owned("css"));
}

#[test]
fn directory_is_what_stands_before_the_name() {
    assert_eq!(directory_of("a.txt"), "");
    assert_eq!(directory_of("dir/a.txt"), "dir");
    assert_eq!(directory_of("/a.txt"), "/");
    assert_eq!(directory_of("./a.txt"), ".");
    assert_eq!(directory_of("x/y/a.txt/"), "x/y");
    assert_eq!(directory_of("x//a.txt"), "x");
    assert_eq!(directory_of("x/./a.txt"), "x");
    assert_eq!(directory_of("x//y/a.txt"), "x//y");
    assert_eq!(directory_of("x/../a.txt"), "x/..");
    assert_eq!(directory_of("/./a.txt"), "/");
}

#[test]
fn destination_appends_the_suffix_to_the_file_name() {
    assert_eq!(destination_path("file.js", Algorithm::Brotli), owned("file.js.br"));
    assert_eq!(destination_path("file.js", Algorithm::Deflate), owned("file.js.zz"));
    assert_eq!(destination_path("file.js", Algorithm::Gzip), owned("file.js.gz"));
    assert_eq!(destination_path("file.js", Algorithm::Zstd), owned("file.js.zst"));
    assert_eq!(
        destination_path("static/css/site.css", Algorithm::Gzip),
        owned("static/css/site.css.gz")
    );
    assert_eq!(destination_path("noext", Algorithm::Zstd), owned("noext.zst"));
    assert_eq!(destination_path("/index.html", Algorithm::Brotli), owned("/index.html.br"));
    assert_eq!(destination_path("./index.html", Algorithm::Brotli), owned("./index.html.br"));
}

#[test]
fn destination_stands_in_the_directory_of_the_source() {
    assert_eq!(destination_path("a/b.js/", Algorithm::Brotli), owned("a/b.js.br"));
    assert_eq!(destination_path("a/b.js/.", Algorithm::Brotli), owned("a/b.js.br"));
    assert_eq!(destination_path("a//b.js", Algorithm::Gzip), owned("a/b.js.gz"));
    assert_eq!(destination_path("a/./b.js", Algorithm::Gzip), owned("a/b.js.gz"));
    assert_eq!(destination_path("//b.js", Algorithm::Gzip), owned("/b.js.gz"));
}

#[test]
fn there_is_no_destination_without_a_file_name() {
    for path in ["", "/", "..", "dir/..", ".", "./", "/."] {
        for algorithm in Algorithm::iter() {
            assert_eq!(destination_path(path, algorithm), None, "{:?}", path);
        }
    }
}

#[test]
fn destinations_of_one_file_are_distinct() {
    let all: Vec<String> = Algorithm::iter()
        .into_iter()
        .map(|a| destination_path("dir/a.txt", a).unwrap())
        .collect();
    for i in 0..all.len() {
        assert_ne!(all[i], "dir/a.txt");
        for j in 0..i {
            assert_ne!(all[i], all[j]);
        }
    }
}

fn every_path(alphabet: &[char], longest: usize) -> Vec<String> {
    let mut all = vec![String::new()];
    let mut last = vec![String::new()];
    for _ in 0..longest {
        let mut next = Vec::new();
        for text in &last {
            for c in alphabet {
                let mut longer = text.clone();
                longer.push(*c);
                next.push(longer);
            }
        }
        all.extend(next.iter().cloned());
        last = next;
    }
    all
}

#[test]
fn file_name_and_extension_agree_with_the_standard_library() {
    for path in every_path(&['/', '.', 'a', 'b'], 7) {
        let std_path = Path::new(&path);
        let name = std_path.file_name().and_then(|n| n.to_str()).map(|n| n.to_owned());
        let ext = std_path.extension().and_then(|e| e.to_str()).map(|e| e.to_owned());
        assert_eq!(file_name_of(&path), name, "{:?}", path);
        assert_eq!(has_file_name(&path), name.is_some(), "{:?}", path);
        assert_eq!(extension_of(&path), ext, "{:?}", path);
    }
}

#[test]
fn directory_and_destination_agree_with_the_standard_library() {
    for path in every_path(&['/', '.', 'a'], 8) {
        let std_path = Path::new(&path);
        match std_path.file_name() {
            None => assert_eq!(destination_path(&path, Algorithm::Zstd), None, "{:?}", path),
            Some(name) => {
                let parent = std_path.parent().and_then(|p| p.to_str()).map(|p| p.to_owned());
                assert_eq!(Some(directory_of(&path)), parent, "{:?}", path);
                let mut sibling = name.to_os_string();
                sibling.push(Algorithm::Zstd.extension());
                let expected = std_path.with_file_name(sibling);
                assert_eq!(
                    destination_path(&path, Algorithm::Zstd),
                    expected.to_str().map(|p| p.to_owned()),
                    "{:?}",
                    path
                );
            }
        }
    }
}

#[test]
fn destination_agrees_with_the_standard_library_on_file_paths() {
    for path in ["a.txt", "static/css/site.css", "/abs/index.html", "x/.gitignore", "x/y.d/z"] {
        for algorithm in Algorithm::iter() {
            let source = Path::new(path);
            let mut name = source.file_name().unwrap().to_os_string();
            name.push(algorithm.extension());
            let expected = source.with_file_name(name);
            assert_eq!(
                destination_path(path, algorithm),
                expected.to_str().map(|p| p.to_owned()),
                "{:?}",
                path
            );
            assert_eq!(
                destination_path(path, algorithm),
                Some(format!("{}{}", path, algorithm.extension()))
            );
        }
    }
}
