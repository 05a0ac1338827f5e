use porovnavac::naming::{changelog_file_name, is_snapshot_name, snapshot_file_name};
use porovnavac::properties::{pack_version_in, split_lines, with_pack_version};
use porovnavac::scan::count_archives;

fn lines_with_std(text: &str) -> Vec<String> {
    text.lines().map(|l| l.to_string()).collect()
}

fn version_with_std(text: &str) -> Option<String> {
    for line in text.lines() {
        let trimmed = line.trim();
        if trimmed.starts_with('#') {
            continue;
        }
        if let Some(value) = trimmed.strip_prefix("packVersion=") {
            return Some(value.trim().to_string());
        }
    }
    None
}

fn rewritten_with_std(text: &str, new_version: &str) -> Option<String> {
    let mut replaced = false;
    let mut out = Vec::new();
    for line in text.lines() {
        let trimmed = line.trim_start();
        if !replaced && !trimmed.starts_with('#') && trimmed.starts_with("packVersion=") {
            let indent = &line[..line.len() - trimmed.len()];
            out.push(format!("{indent}packVersion={}", new_version.trim()));
            replaced = true;
        } else {
            out.push(line.to_string());
        }
    }
    if !replaced {
        return None;
    }
    let mut merged = out.join("\n");
    if text.contains("\r\n") {
        merged = merged.replace('\n', "\r\n");
    }
    Some(merged)
}

const SAMPLES: [&str; 16] = [
    "",
    "\n",
    "packVersion=1.2.3",
    "packVersion=1.2.3\n",
    "title=Pack\npackVersion = 1\npackVersion=2\n",
    "# packVersion=0\n  packVersion=  26.1.0  \nother=1",
    "a=1\r\n\tpackVersion=3\r\nb=2\r\n",
    "a=1\r\npackVersion=3\nb=2",
    "#packVersion=1\n# c\n",
    "packVersion=\n",
    "xpackVersion=1\npackversion=2\n",
    "a\n\nb\n\n",
    "a\rb\r\nc\r",
    "\r\n\r\n",
    "  \u{a0}packVersion=9 \u{3000}\n",
    "packVersion=1\r",
];

#[test]
fn lines_are_those_of_std() {
    for text in SAMPLES {
        let chars: Vec<char> = text.chars().collect();
        let ours: Vec<String> = split_lines(&chars).iter().map(|l| l.iter().collect()).collect();
        assert_eq!(ours, lines_with_std(text), "{text:?}");
    }
}

#[test]
fn the_version_is_read() {
    assert_eq!(pack_version_in("packVersion=1.2.3"), Some("1.2.3".to_string()));
    assert_eq!(
        pack_version_in("# packVersion=0\n  packVersion=  26.1.0  \nother=1"),
        Some("26.1.0".to_string())
    );
    assert_eq!(pack_version_in("packVersion=\n"), Some("".to_string()));
    assert_eq!(pack_version_in("title=x\n"), None);
    assert_eq!(pack_version_in("packVersion = 1\n"), None);
    assert_eq!(pack_version_in(""), None);
    for text in SAMPLES {
        assert_eq!(pack_version_in(text), version_with_std(text), "{text:?}");
    }
}

#[test]
fn the_version_is_written() {
    assert_eq!(
        with_pack_version("a=1\n  packVersion=1\npackVersion=2\n", " 7.0 "),
        Some("a=1\n  packVersion=7.0\npackVersion=2".to_string())
    );
    assert_eq!(
        with_pack_version("a=1\r\npackVersion=1\r\n", "2"),
        Some("a=1\r\npackVersion=2".to_string())
    );
    assert_eq!(
        with_pack_version("a=1\r\npackVersion=1\nb", "2"),
        Some("a=1\r\npackVersion=2\r\nb".to_string())
    );
    assert_eq!(with_pack_version("# packVersion=1\n", "2"), None);
    assert_eq!(with_pack_version("", "2"), None);
    for text in SAMPLES {
        for version in ["2.0", "  x ", ""] {
            assert_eq!(with_pack_version(text, version), rewritten_with_std(text, version), "{text:?}");
        }
    }
}

#[test]
fn what_was_written_is_read_back() {
    let text = with_pack_version("a=1\n\tpackVersion=old\nb=2\n", "new").unwrap();
    assert_eq!(pack_version_in(&text), Some("new".to_string()));
}

#[test]
fn names_of_the_files_of_a_pack() {
    assert_eq!(snapshot_file_name("my-pack-1.2.3-lite"), "my-pack-1.2.3-lite.mods_snapshot.json");
    assert_eq!(changelog_file_name("my-pack-1.2.3-lite"), "my-pack-1.2.3-lite.changelog.md");
    assert!(is_snapshot_name("a.mods_snapshot.json"));
    assert!(is_snapshot_name(".mods_snapshot.json"));
    assert!(!is_snapshot_name("a.changelog.md"));
    assert!(!is_snapshot_name("mods_snapshot.json"));
}

#[test]
fn archives_are_counted() {
    let names: Vec<String> =
        ["a.jar", "b.txt", "c.jar.disabled", "d.jar.bak", "e.jar"].iter().map(|s| s.to_string()).collect();
    assert_eq!(count_archives(&names), 3);
    assert_eq!(count_archives(&Vec::new()), 0);
}
