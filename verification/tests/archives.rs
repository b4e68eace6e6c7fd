use mindwiki::import::{plan_import, EntryHead, ImportPlan, ImportStepOf, MAX_IMPORT_BYTES};
use mindwiki::upload::{FormActionOf, FormEvent, Upload, UploadKind};
use std::io::Write as _;

fn make_zip(files: &[(&str, &str)]) -> Vec<u8> {
    let mut w = zip::ZipWriter::new(std::io::Cursor::new(Vec::new()));
    let opts = zip::write::SimpleFileOptions::default();
    for (name, content) in files {
        w.start_file(*name, opts).unwrap();
        w.write_all(content.as_bytes()).unwrap();
    }
    w.finish().unwrap().into_inner()
}

fn lines(p: &ImportPlan) -> Vec<String> {
    p.steps
        .iter()
        .map(|s| match s {
            ImportStepOf::MakeDir(path) => format!("dir {path}"),
            ImportStepOf::MakeParent(path) => format!("parent {path}"),
            ImportStepOf::WriteFile { path, data } => {
                format!("write {path} {}", String::from_utf8_lossy(data))
            }
        })
        .collect()
}

#[test]
fn archives_are_planned_entry_by_entry() {
    let zip = make_zip(&[
        ("wiki/A.md", "# A"),
        ("sources/", ""),
        (".git/junk", "junk"),
        ("中文\\页.md", "x"),
        (".obsidian/config", "{}"),
    ]);
    let p = plan_import("/w", zip);
    assert!(p.failure.is_none());
    assert_eq!(
        lines(&p),
        [
            "parent /w/wiki/A.md",
            "write /w/wiki/A.md # A",
            "dir /w/sources/",
            "parent /w/中文/页.md",
            "write /w/中文/页.md x",
        ]
    );
    assert_eq!(p.imported, ["wiki/A.md", "中文/页.md"]);
    assert_eq!(p.skipped, [".git/junk", ".obsidian/config"]);
}

#[test]
fn paths_that_leave_refuse_the_archive() {
    let zip = make_zip(&[("wiki/ok.md", "# ok\n"), ("../../etc/evil", "evil"), ("z.md", "")]);
    let p = plan_import("/w", zip);
    assert_eq!(p.failure.as_deref(), Some("压缩包包含恶意路径：../../etc/evil"));
    assert_eq!(lines(&p), ["parent /w/wiki/ok.md", "write /w/wiki/ok.md # ok\n"]);
    let p = plan_import("/w", make_zip(&[("/etc/evil", "evil")]));
    assert_eq!(p.failure.as_deref(), Some("压缩包包含恶意路径：/etc/evil"));
    assert!(p.steps.is_empty());
}

#[test]
fn links_refuse_the_archive() {
    let mut w = zip::ZipWriter::new(std::io::Cursor::new(Vec::new()));
    w.add_symlink("wiki/l.md", "/etc/passwd", zip::write::SimpleFileOptions::default()).unwrap();
    let p = plan_import("/w", w.finish().unwrap().into_inner());
    assert_eq!(p.failure.as_deref(), Some("压缩包包含符号链接：wiki/l.md"));
    assert!(p.steps.is_empty());
}

#[test]
fn broken_archives_are_told() {
    let p = plan_import("/w", b"no archive".to_vec());
    assert!(p.failure.as_deref().unwrap().starts_with("zip 解析失败："));
    let mut zip = make_zip(&[("a.md", "hello hello hello hello hello hello hello hello")]);
    let at = 30 + 4 + 2;
    zip[at] ^= 0xff;
    zip[at + 1] ^= 0xff;
    let p = plan_import("/w", zip);
    assert!(p.failure.as_deref().unwrap().starts_with("zip 解压失败："));
    assert_eq!(lines(&p), ["parent /w/a.md"]);
    assert!(p.imported.is_empty());
}

#[test]
fn entries_are_planned_by_name_and_mode() {
    let head = |name: &str, mode: Option<u32>| Ok(EntryHead { name: name.to_string(), mode });
    let mut p = ImportPlan::new();
    assert_eq!(p.add_head("/w", head("a.md", Some(0o100644))), Some("a.md".to_string()));
    assert_eq!(p.add_head("/w", head("d\\", None)), None);
    assert_eq!(p.add_head("/w", head("x/.DS_Store", None)), None);
    p.add_data("/w", "a.md".to_string(), Ok(vec![1]));
    assert!(p.failure.is_none());
    assert_eq!(p.add_head("/w", Err("encrypted".to_string())), None);
    assert_eq!(p.failure.as_deref(), Some("zip 读取失败：encrypted"));
    assert_eq!(lines(&p)[..2], ["parent /w/a.md", "dir /w/d/"]);
    assert_eq!(p.skipped, ["x/.DS_Store"]);
    let mut q = ImportPlan::new();
    assert_eq!(q.add_head("/w", head("l", Some(0o120777))), None);
    assert_eq!(q.failure.as_deref(), Some("压缩包包含符号链接：l"));
    let mut r = ImportPlan::new();
    r.add_data("/w", "a".to_string(), Err("bad crc".to_string()));
    assert_eq!(r.failure.as_deref(), Some("zip 解压失败：bad crc"));
}

fn field(name: Option<&str>) -> FormEvent {
    FormEvent::Field { file_name: name.map(|s| s.to_string()) }
}

#[test]
fn the_last_file_of_the_kind_is_received() {
    let mut u = Upload::new(UploadKind::Markdown);
    assert!(matches!(u.next(FormEvent::Start), FormActionOf::NextField));
    assert!(matches!(u.next(field(None)), FormActionOf::NextField));
    assert!(matches!(u.next(field(Some("a.md"))), FormActionOf::ReadField));
    assert!(matches!(u.next(FormEvent::Bytes(vec![1])), FormActionOf::NextField));
    assert!(matches!(u.next(field(Some("b.zip"))), FormActionOf::NextField));
    assert!(matches!(u.next(field(Some("c.md"))), FormActionOf::ReadField));
    assert!(matches!(u.next(FormEvent::Bytes(vec![2, 3])), FormActionOf::NextField));
    match u.next(FormEvent::End) {
        FormActionOf::Received { name, data } => {
            assert_eq!(name, "c.md");
            assert_eq!(data, [2, 3]);
        }
        _ => panic!("nothing received"),
    }
}

fn refused(a: FormActionOf<String, Vec<u8>, mindwiki::reply::Reply>) -> u16 {
    match a {
        FormActionOf::Refused(r) => r.status,
        _ => panic!("not refused"),
    }
}

#[test]
fn forms_without_a_file_are_refused() {
    let mut u = Upload::new(UploadKind::Markdown);
    u.next(field(Some("a.txt")));
    assert_eq!(refused(u.next(FormEvent::End)), 400);
    assert!(matches!(u.next(FormEvent::Bytes(vec![])), FormActionOf::Misfit));
    let broken = || FormEvent::Failed { status: 413, why: "too long".to_string() };
    assert_eq!(refused(u.next(broken())), 400);
    let mut z = Upload::new(UploadKind::Zip);
    assert_eq!(refused(z.next(broken())), 413);
    assert_eq!(refused(z.next(FormEvent::End)), 400);
}

#[test]
fn large_archives_are_refused() {
    assert_eq!(MAX_IMPORT_BYTES, 50 * 1024 * 1024);
    let mut z = Upload::new(UploadKind::Zip);
    z.next(field(Some("w.zip")));
    assert_eq!(refused(z.next(FormEvent::Bytes(vec![0; MAX_IMPORT_BYTES + 1]))), 413);
    let mut z = Upload::new(UploadKind::Zip);
    z.next(field(Some("w.zip")));
    assert!(matches!(
        z.next(FormEvent::Bytes(vec![0; MAX_IMPORT_BYTES])),
        FormActionOf::NextField
    ));
}
