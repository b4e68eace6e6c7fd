//! Importing a wiki from a zip archive: what is to be written where, what is left out, and what
//! the archive is refused for.

use crate::paths::{escapes_root, is_import_junk, join_path};
#[allow(unused_imports)]
use crate::paths::{
    escapes,
    is_junk,
    is_junk_name,
    law_safe_paths_stay_inside,
    names,
    under,
    within,
};
#[allow(unused_imports)]
use crate::text::replaced;
use crate::text::{cat, chars_of, replace, texts};
use vstd::prelude::*;

verus! {

/// The largest archive that is taken.
pub const MAX_IMPORT_BYTES: usize = 52_428_800;

// ---------------------------------------------------------------------------
// Archives
// ---------------------------------------------------------------------------

#[verifier::external_type_specification]
#[verifier::external_body]
#[verifier::reject_recursive_types(R)]
pub struct ExZipArchive<R>(zip::ZipArchive<R>);

#[verifier::external_type_specification]
#[verifier::external_body]
#[verifier::reject_recursive_types(T)]
pub struct ExCursor<T>(std::io::Cursor<T>);

/// An archive that lies in memory.
pub type Archive = zip::ZipArchive<std::io::Cursor<Vec<u8>>>;

/// An entry of an archive: its name and its Unix mode, and its content, each with why it cannot
/// be had where it cannot.
pub struct ZipItem {
    pub head: Result<(Seq<char>, Option<u32>), Seq<char>>,
    pub data: Result<Seq<u8>, Seq<char>>,
}

/// What the archive in these bytes holds, or why they are none.
pub uninterp spec fn zip_contents(bytes: Seq<u8>) -> Result<Seq<ZipItem>, Seq<char>>;

/// What an opened archive holds.
pub uninterp spec fn archive_items(a: zip::ZipArchive<std::io::Cursor<Vec<u8>>>) -> Seq<ZipItem>;

/// Name and Unix mode of an entry.
pub struct EntryHead {
    pub name: String,
    pub mode: Option<u32>,
}

pub open spec fn head_model(r: Result<EntryHead, String>) -> Result<
    (Seq<char>, Option<u32>),
    Seq<char>,
> {
    match r {
        Ok(h) => Ok((h.name@, h.mode)),
        Err(why) => Err(why@),
    }
}

pub open spec fn data_model(r: Result<Vec<u8>, String>) -> Result<Seq<u8>, Seq<char>> {
    match r {
        Ok(data) => Ok(data@),
        Err(why) => Err(why@),
    }
}

/// `zip::ZipArchive::new` reads the directory of the archive that the bytes hold. What it holds,
/// or why it cannot be read, depends on the bytes alone.
#[verifier::external_body]
fn open_archive(bytes: Vec<u8>) -> (r: Result<Archive, String>)
    ensures
        zip_contents(bytes@) == (match r {
            Ok(a) => Ok(archive_items(a)),
            Err(why) => Err(why@),
        }),
{
    zip::ZipArchive::new(std::io::Cursor::new(bytes)).map_err(|e| e.to_string())
}

/// `zip::ZipArchive::len` gives the number of entries.
#[verifier::external_body]
fn archive_len(a: &Archive) -> (n: usize)
    ensures
        n == archive_items(*a).len(),
{
    a.len()
}

/// `zip::ZipArchive::by_index` finds an entry, `ZipFile::name` and `ZipFile::unix_mode` describe
/// it. The archive holds what it held before.
#[verifier::external_body]
fn entry_head(a: &mut Archive, i: usize) -> (r: Result<EntryHead, String>)
    ensures
        archive_items(*final(a)) == archive_items(*old(a)),
        i < archive_items(*old(a)).len() ==> head_model(r) == archive_items(*old(a))[i as int].head,
{
    match a.by_index(i) {
        Ok(entry) => Ok(EntryHead { name: entry.name().to_string(), mode: entry.unix_mode() }),
        Err(e) => Err(e.to_string()),
    }
}

/// `zip::ZipArchive::by_index` finds an entry, and reading it to its end gives its content. The
/// archive holds what it held before.
#[verifier::external_body]
fn entry_data(a: &mut Archive, i: usize) -> (r: Result<Vec<u8>, String>)
    ensures
        archive_items(*final(a)) == archive_items(*old(a)),
        i < archive_items(*old(a)).len() ==> data_model(r) == archive_items(*old(a))[i as int].data,
{
    let mut entry = a.by_index(i).map_err(|e| e.to_string())?;
    let mut data = Vec::new();
    std::io::Read::read_to_end(&mut entry, &mut data).map_err(|e| e.to_string())?;
    Ok(data)
}

// ---------------------------------------------------------------------------
// Plans
// ---------------------------------------------------------------------------

/// One thing to do, over paths `T` and contents `B`.
pub enum ImportStepOf<T, B> {
    /// Make the directory.
    MakeDir(T),
    /// Make the directory that the path lies in, if that can be.
    MakeParent(T),
    /// Write the file, over one that is there.
    WriteFile { path: T, data: B },
}

pub type ImportStep = ImportStepOf<String, Vec<u8>>;

pub type ImportStepModel = ImportStepOf<Seq<char>, Seq<u8>>;

impl View for ImportStepOf<String, Vec<u8>> {
    type V = ImportStepModel;

    open spec fn view(&self) -> ImportStepModel {
        match *self {
            ImportStepOf::MakeDir(path) => ImportStepOf::MakeDir(path@),
            ImportStepOf::MakeParent(path) => ImportStepOf::MakeParent(path@),
            ImportStepOf::WriteFile { path, data } => ImportStepOf::WriteFile {
                path: path@,
                data: data@,
            },
        }
    }
}

pub open spec fn step_models(v: Seq<ImportStep>) -> Seq<ImportStepModel> {
    v.map_values(|s: ImportStep| s@)
}

/// What an import does, what it takes and leaves out, and what it ends in, if it fails.
pub struct ImportPlan {
    pub steps: Vec<ImportStep>,
    pub imported: Vec<String>,
    pub skipped: Vec<String>,
    pub failure: Option<String>,
}

/// The mathematical content of a plan.
#[verifier::ext_equal]
pub struct Plan {
    pub steps: Seq<ImportStepModel>,
    pub imported: Seq<Seq<char>>,
    pub skipped: Seq<Seq<char>>,
    pub failure: Option<Seq<char>>,
}

impl View for ImportPlan {
    type V = Plan;

    open spec fn view(&self) -> Plan {
        Plan {
            steps: step_models(self.steps@),
            imported: texts(self.imported@),
            skipped: texts(self.skipped@),
            failure: match self.failure {
                Some(why) => Some(why@),
                None => None,
            },
        }
    }
}

pub open spec fn empty_plan() -> Plan {
    Plan { steps: seq![], imported: seq![], skipped: seq![], failure: None }
}

/// A mode that says that an entry is a symbolic link.
pub open spec fn is_symlink(mode: Option<u32>) -> bool {
    match mode {
        Some(m) => m & 0xf000 == 0xa000,
        None => false,
    }
}

/// A name that ends in a slash is that of a directory.
pub open spec fn is_dir_name(name: Seq<char>) -> bool {
    name.len() > 0 && name.last() == '/'
}

/// An entry of this name and mode is written as a file.
pub open spec fn is_file_entry(name: Seq<char>, mode: Option<u32>) -> bool {
    !escapes(name) && !is_symlink(mode) && !is_junk(name) && !is_dir_name(name)
}

pub open spec fn failed(p: Plan, why: Seq<char>) -> Plan {
    Plan { failure: Some(why), ..p }
}

/// The plan with one more entry, as far as its name and mode go: a path that leads out of the
/// wiki and a symbolic link are refused, junk is left out, a directory is made.
pub open spec fn with_head(
    p: Plan,
    work: Seq<char>,
    head: Result<(Seq<char>, Option<u32>), Seq<char>>,
) -> Plan {
    match head {
        Err(why) => failed(p, "zip 读取失败："@ + why),
        Ok((raw, mode)) => {
            let name = replaced(raw, '\\', '/');
            if escapes(name) {
                failed(p, "压缩包包含恶意路径："@ + name)
            } else if is_symlink(mode) {
                failed(p, "压缩包包含符号链接："@ + name)
            } else if is_junk(name) {
                Plan { skipped: p.skipped.push(name), ..p }
            } else if is_dir_name(name) {
                Plan { steps: p.steps.push(ImportStepOf::MakeDir(under(work, name))), ..p }
            } else {
                Plan { steps: p.steps.push(ImportStepOf::MakeParent(under(work, name))), ..p }
            }
        },
    }
}

/// The plan with the content of a file.
pub open spec fn with_data(
    p: Plan,
    work: Seq<char>,
    name: Seq<char>,
    data: Result<Seq<u8>, Seq<char>>,
) -> Plan {
    match data {
        Err(why) => failed(p, "zip 解压失败："@ + why),
        Ok(data) => Plan {
            steps: p.steps.push(ImportStepOf::WriteFile { path: under(work, name), data }),
            imported: p.imported.push(name),
            ..p
        },
    }
}

/// The name of the file that an entry is written as, if it is.
pub open spec fn file_of(head: Result<(Seq<char>, Option<u32>), Seq<char>>) -> Option<Seq<char>> {
    match head {
        Ok((raw, mode)) => if is_file_entry(replaced(raw, '\\', '/'), mode) {
            Some(replaced(raw, '\\', '/'))
        } else {
            None
        },
        Err(_) => None,
    }
}

/// The plan with one more entry.
pub open spec fn with_item(p: Plan, work: Seq<char>, item: ZipItem) -> Plan {
    match file_of(item.head) {
        Some(name) => with_data(with_head(p, work, item.head), work, name, item.data),
        None => with_head(p, work, item.head),
    }
}

/// The plan for the entries, one after the other, up to the first that is refused.
pub open spec fn plan_of(work: Seq<char>, items: Seq<ZipItem>) -> Plan
    decreases items.len(),
{
    if items.len() == 0 {
        empty_plan()
    } else {
        let p = plan_of(work, items.drop_last());
        if p.failure is Some {
            p
        } else {
            with_item(p, work, items.last())
        }
    }
}

/// The plan for the archive in the given bytes.
pub open spec fn plan_for(work: Seq<char>, bytes: Seq<u8>) -> Plan {
    match zip_contents(bytes) {
        Ok(items) => plan_of(work, items),
        Err(why) => failed(empty_plan(), "zip 解析失败："@ + why),
    }
}

fn links_elsewhere(mode: Option<u32>) -> (b: bool)
    ensures
        b == is_symlink(mode),
{
    match mode {
        Some(m) => m & 0xf000 == 0xa000,
        None => false,
    }
}

fn names_directory(name: &str) -> (b: bool)
    ensures
        b == is_dir_name(name@),
{
    let cs = chars_of(name);
    let n: usize = cs.len();
    n > 0 && cs[n - 1] == '/'
}

impl ImportPlan {
    /// A plan to do nothing.
    pub fn new() -> (p: ImportPlan)
        ensures
            p@ == empty_plan(),
    {
        let p = ImportPlan {
            steps: Vec::new(),
            imported: Vec::new(),
            skipped: Vec::new(),
            failure: None,
        };
        assert(p@ =~= empty_plan());
        p
    }

    fn push_step(&mut self, step: ImportStep)
        ensures
            final(self)@ == (Plan { steps: old(self)@.steps.push(step@), ..old(self)@ }),
    {
        let ghost before = self@;
        self.steps.push(step);
        assert(self@ =~= (Plan { steps: before.steps.push(step@), ..before }));
    }

    /// Adds an entry of the given name and mode. Where it is a file, its content is still to be
    /// added under the name that is returned.
    pub fn add_head(&mut self, work: &str, head: Result<EntryHead, String>) -> (file: Option<String>)
        ensures
            final(self)@ == with_head(old(self)@, work@, head_model(head)),
            (match file {
                Some(name) => Some(name@),
                None => None,
            }) == file_of(head_model(head)),
    {
        let ghost before = self@;
        let h = match head {
            Ok(h) => h,
            Err(why) => {
                self.failure = Some(cat("zip 读取失败：", why.as_str()));
                return None;
            },
        };
        let name = replace(h.name.as_str(), '\\', '/');
        if escapes_root(name.as_str()) {
            self.failure = Some(cat("压缩包包含恶意路径：", name.as_str()));
            return None;
        }
        if links_elsewhere(h.mode) {
            self.failure = Some(cat("压缩包包含符号链接：", name.as_str()));
            return None;
        }
        if is_import_junk(name.as_str()) {
            self.skipped.push(name);
            assert(self@ =~= (Plan { skipped: before.skipped.push(name@), ..before }));
            return None;
        }
        let path = join_path(work, name.as_str());
        if names_directory(name.as_str()) {
            self.push_step(ImportStepOf::MakeDir(path));
            return None;
        }
        self.push_step(ImportStepOf::MakeParent(path));
        Some(name)
    }

    /// Adds the content of a file.
    pub fn add_data(&mut self, work: &str, name: String, data: Result<Vec<u8>, String>)
        ensures
            final(self)@ == with_data(old(self)@, work@, name@, data_model(data)),
    {
        let ghost before = self@;
        match data {
            Err(why) => {
                self.failure = Some(cat("zip 解压失败：", why.as_str()));
            },
            Ok(data) => {
                let path = join_path(work, name.as_str());
                self.push_step(ImportStepOf::WriteFile { path, data });
                let ghost middle = self@;
                self.imported.push(name);
                assert(self@ =~= (Plan { imported: middle.imported.push(name@), ..middle }));
            },
        }
    }
}

/// The plan for importing an archive into the directory `work`.
pub fn plan_import(work: &str, bytes: Vec<u8>) -> (p: ImportPlan)
    ensures
        p@ == plan_for(work@, bytes@),
{
    let mut p = ImportPlan::new();
    let mut archive = match open_archive(bytes) {
        Ok(a) => a,
        Err(why) => {
            p.failure = Some(cat("zip 解析失败：", why.as_str()));
            return p;
        },
    };
    let n: usize = archive_len(&archive);
    let ghost items = archive_items(archive);
    let mut i: usize = 0;
    assert(items.take(0) =~= seq![]);
    while i < n && p.failure.is_none()
        invariant
            i <= n,
            n == items.len(),
            archive_items(archive) == items,
            p@ == plan_of(work@, items.take(i as int)),
        decreases n - i,
    {
        assert(items.take(i + 1).drop_last() =~= items.take(i as int));
        assert(items.take(i + 1).last() == items[i as int]);
        let head = entry_head(&mut archive, i);
        match p.add_head(work, head) {
            Some(name) => {
                let data = entry_data(&mut archive, i);
                p.add_data(work, name, data);
            },
            None => {},
        }
        i += 1;
    }
    proof {
        if i < n {
            lemma_failure_stays(work@, items, i as int);
        } else {
            assert(items.take(n as int) =~= items);
        }
    }
    p
}

proof fn lemma_failure_stays(work: Seq<char>, items: Seq<ZipItem>, n: int)
    requires
        0 <= n <= items.len(),
        plan_of(work, items.take(n)).failure is Some,
    ensures
        plan_of(work, items) == plan_of(work, items.take(n)),
    decreases items.len() - n,
{
    if n < items.len() {
        assert(items.take(n + 1).drop_last() =~= items.take(n));
        lemma_failure_stays(work, items, n + 1);
    } else {
        assert(items.take(n) =~= items);
    }
}

// ---------------------------------------------------------------------------
// Laws
// ---------------------------------------------------------------------------

/// The path that a step touches.
pub open spec fn step_path(s: ImportStepModel) -> Seq<char> {
    match s {
        ImportStepOf::MakeDir(path) => path,
        ImportStepOf::MakeParent(path) => path,
        ImportStepOf::WriteFile { path, data } => path,
    }
}

/// The step stays in `work`, on a path below it that is no junk.
pub open spec fn is_tame(work: Seq<char>, s: ImportStepModel) -> bool {
    &&& within(work, step_path(s))
    &&& exists|name: Seq<char>| #[trigger]
        under(work, name) == step_path(s) && !escapes(name) && !is_junk(name)
}

/// An import touches nothing outside the directory it imports into, and no junk, whatever the
/// archive holds.
pub proof fn law_import_stays_inside(work: Seq<char>, items: Seq<ZipItem>, k: int)
    requires
        0 <= k < plan_of(work, items).steps.len(),
    ensures
        is_tame(work, plan_of(work, items).steps[k]),
    decreases items.len(),
{
    let less = items.drop_last();
    let p = plan_of(work, less);
    let q = plan_of(work, items);
    if k < p.steps.len() {
        law_import_stays_inside(work, less, k);
        assert(q.steps[k] == p.steps[k]);
    } else {
        let head = items.last().head;
        let name = replaced(head->Ok_0.0, '\\', '/');
        assert(step_path(q.steps[k]) == under(work, name));
        law_safe_paths_stay_inside(work, name);
    }
}

/// One refused entry refuses the archive: after an import that fails nothing of the refused entry
/// or of any later one is touched.
pub proof fn law_refusal_ends_the_import(work: Seq<char>, items: Seq<ZipItem>, n: int)
    requires
        0 <= n <= items.len(),
        plan_of(work, items.take(n)).failure is Some,
    ensures
        plan_of(work, items) == plan_of(work, items.take(n)),
{
    lemma_failure_stays(work, items, n);
}

/// The paths of the files that steps write, in order.
pub open spec fn written(steps: Seq<ImportStepModel>) -> Seq<Seq<char>>
    decreases steps.len(),
{
    if steps.len() == 0 {
        seq![]
    } else {
        match steps.last() {
            ImportStepOf::WriteFile { path, data } => written(steps.drop_last()).push(path),
            _ => written(steps.drop_last()),
        }
    }
}

/// The files that an import writes are exactly the ones that it reports as imported.
pub proof fn law_import_reports_what_it_writes(work: Seq<char>, items: Seq<ZipItem>)
    ensures
        written(plan_of(work, items).steps) == plan_of(work, items).imported.map_values(
            |name: Seq<char>| under(work, name),
        ),
    decreases items.len(),
{
    let f = |name: Seq<char>| under(work, name);
    if items.len() == 0 {
        assert(written(empty_plan().steps) =~= empty_plan().imported.map_values(f));
    } else {
        let less = items.drop_last();
        law_import_reports_what_it_writes(work, less);
        let p = plan_of(work, less);
        let q = plan_of(work, items);
        if p.failure is None {
            let item = items.last();
            let h = with_head(p, work, item.head);
            if h.steps.len() > p.steps.len() {
                assert(h.steps.drop_last() =~= p.steps);
            }
            assert(written(h.steps) == written(p.steps));
            assert(h.imported == p.imported);
            if q.steps.len() > h.steps.len() {
                assert(q.steps.drop_last() =~= h.steps);
                assert(q.imported.map_values(f) =~= p.imported.map_values(f).push(
                    f(q.imported.last()),
                ));
            }
        }
    }
}

/// The name of an entry, with slashes only.
pub open spec fn entry_name(item: ZipItem) -> Seq<char> {
    replaced(item.head->Ok_0.0, '\\', '/')
}

/// An entry through one of the names that a wiki has no use for.
pub open spec fn is_litter(item: ZipItem) -> bool {
    exists|i: int|
        0 <= i < names(entry_name(item)).len() && ({
            let name = #[trigger] names(entry_name(item))[i];
            name == ".git"@ || name == ".obsidian"@ || name == ".trash"@ || name == "__MACOSX"@
                || name == ".DS_Store"@ || name == "Thumbs.db"@
        })
}

/// An entry that is a page or another file of the wiki: neither litter nor a directory, whose name
/// ends in a slash.
pub open spec fn is_content(item: ZipItem) -> bool {
    let name = entry_name(item);
    !is_litter(item) && !(name.len() > 0 && name[name.len() - 1] == '/')
}

/// Why an archive with this entry is refused, if it is.
pub open spec fn objection(item: ZipItem) -> Option<Seq<char>> {
    match (item.head, item.data) {
        (Err(why), _) => Some("zip 读取失败："@ + why),
        (Ok((_, mode)), data) => if escapes(entry_name(item)) {
            Some("压缩包包含恶意路径："@ + entry_name(item))
        } else if mode is Some && mode->0 & 0o170000 == 0o120000 {
            Some("压缩包包含符号链接："@ + entry_name(item))
        } else if is_content(item) && data is Err {
            Some("zip 解压失败："@ + data->Err_0)
        } else {
            None
        },
    }
}

/// The entries of the first `n` that satisfy `p`, by their places.
pub open spec fn places(items: Seq<ZipItem>, p: spec_fn(ZipItem) -> bool, n: nat) -> Seq<int>
    decreases n,
{
    if n == 0 {
        seq![]
    } else if p(items[n - 1]) {
        places(items, p, (n - 1) as nat).push(n - 1)
    } else {
        places(items, p, (n - 1) as nat)
    }
}

/// The files that steps write, in order, each with what is written.
pub open spec fn writes(steps: Seq<ImportStepModel>) -> Seq<(Seq<char>, Seq<u8>)>
    decreases steps.len(),
{
    if steps.len() == 0 {
        seq![]
    } else {
        match steps.last() {
            ImportStepOf::WriteFile { path, data } => writes(steps.drop_last()).push((path, data)),
            _ => writes(steps.drop_last()),
        }
    }
}

/// The directories that steps make, in order.
pub open spec fn made_dirs(steps: Seq<ImportStepModel>) -> Seq<Seq<char>>
    decreases steps.len(),
{
    if steps.len() == 0 {
        seq![]
    } else {
        match steps.last() {
            ImportStepOf::MakeDir(path) => made_dirs(steps.drop_last()).push(path),
            _ => made_dirs(steps.drop_last()),
        }
    }
}

/// The path that the step before a file's writing makes a parent for is the file's own.
pub open spec fn parents_first(steps: Seq<ImportStepModel>) -> bool {
    forall|k: int|
        0 <= k < steps.len() ==> ((#[trigger] steps[k]) matches ImportStepOf::WriteFile {
            path,
            data,
        } ==> k > 0 && steps[k - 1] == ImportStepModel::MakeParent(path))
}

proof fn lemma_objection(p: Plan, work: Seq<char>, item: ZipItem)
    ensures
        p.failure is None ==> with_item(p, work, item).failure == objection(item),
        item.head is Ok ==> (is_litter(item) <==> is_junk(entry_name(item))),
        objection(item) is None ==> ({
            let q = with_item(p, work, item);
            let path = under(work, entry_name(item));
            if is_litter(item) {
                q == (Plan { skipped: p.skipped.push(entry_name(item)), ..p })
            } else if is_content(item) {
                q == (Plan {
                    steps: p.steps.push(ImportStepOf::MakeParent(path)).push(
                        ImportStepOf::WriteFile { path, data: item.data->Ok_0 },
                    ),
                    imported: p.imported.push(entry_name(item)),
                    ..p
                })
            } else {
                q == (Plan { steps: p.steps.push(ImportStepOf::MakeDir(path)), ..p })
            }
        }),
{
    if item.head is Ok {
        let name = entry_name(item);
        let mode = item.head->Ok_0.1;
        if mode is Some {
            let m = mode->0;
            assert((m & 0xf000 == 0xa000) == (m & 0o170000 == 0o120000)) by (bit_vector);
        }
        if is_junk(name) {
            let i = choose|i: int|
                0 <= i < names(name).len() && is_junk_name(#[trigger] names(name)[i]);
            assert(is_litter(item));
        }
        if is_litter(item) {
            let i = choose|i: int|
                0 <= i < names(name).len() && ({
                    let name = #[trigger] names(entry_name(item))[i];
                    name == ".git"@ || name == ".obsidian"@ || name == ".trash"@ || name
                        == "__MACOSX"@ || name == ".DS_Store"@ || name == "Thumbs.db"@
                });
            assert(is_junk_name(names(name)[i]));
        }
    }
}

proof fn lemma_places_take(items: Seq<ZipItem>, p: spec_fn(ZipItem) -> bool, n: nat)
    requires
        n < items.len(),
    ensures
        places(items.drop_last(), p, n) == places(items, p, n),
    decreases n,
{
    if n > 0 {
        lemma_places_take(items, p, (n - 1) as nat);
    }
}

proof fn lemma_places_inside(items: Seq<ZipItem>, p: spec_fn(ZipItem) -> bool, n: nat, k: int)
    requires
        0 <= k < places(items, p, n).len(),
    ensures
        0 <= places(items, p, n)[k] < n,
    decreases n,
{
    if n > 0 && k < places(items, p, (n - 1) as nat).len() {
        lemma_places_inside(items, p, (n - 1) as nat, k);
    }
}

/// An import takes an archive as it is: for each file among its entries, in their order, and for
/// nothing else, a file is written at the entry's path below `work`, and what is written is the
/// content of the entry, all of it. These are the files that are reported as imported. For each
/// directory a directory is made, and the litter is reported as skipped.
pub proof fn law_import_takes_the_archive_as_it_is(work: Seq<char>, items: Seq<ZipItem>)
    requires
        plan_of(work, items).failure is None,
    ensures
        ({
            let p = plan_of(work, items);
            let files = places(items, |item: ZipItem| is_content(item), items.len());
            let litter = places(items, |item: ZipItem| is_litter(item), items.len());
            let dirs = places(
                items,
                |item: ZipItem| !is_content(item) && !is_litter(item),
                items.len(),
            );
            &&& writes(p.steps).len() == files.len()
            &&& p.imported.len() == files.len()
            &&& forall|k: int|
                0 <= k < files.len() ==> (#[trigger] writes(p.steps)[k]).0 == under(
                    work,
                    entry_name(items[files[k]]),
                ) && items[files[k]].data == Ok::<Seq<u8>, Seq<char>>(writes(p.steps)[k].1)
            &&& forall|k: int|
                0 <= k < files.len() ==> #[trigger] p.imported[k] == entry_name(items[files[k]])
            &&& p.skipped == litter.map_values(|i: int| entry_name(items[i]))
            &&& made_dirs(p.steps) == dirs.map_values(|i: int| under(work, entry_name(items[i])))
            &&& parents_first(p.steps)
        }),
    decreases items.len(),
{
    let is_file = |item: ZipItem| is_content(item);
    let is_skipped = |item: ZipItem| is_litter(item);
    let is_made = |item: ZipItem| !is_content(item) && !is_litter(item);
    let named = |i: int| entry_name(items[i]);
    let at = |i: int| under(work, entry_name(items[i]));
    let p = plan_of(work, items);
    if items.len() == 0 {
        assert(p.skipped =~= places(items, is_skipped, 0).map_values(named));
        assert(made_dirs(p.steps) =~= places(items, is_made, 0).map_values(at));
    } else {
        let less = items.drop_last();
        let item = items.last();
        let n = less.len();
        let q = plan_of(work, less);
        law_import_takes_the_archive_as_it_is(work, less);
        lemma_objection(q, work, item);
        lemma_places_take(items, is_file, n);
        lemma_places_take(items, is_skipped, n);
        lemma_places_take(items, is_made, n);
        assert(items[n as int] == item);
        let files = places(items, is_file, n);
        let litter = places(items, is_skipped, n);
        let dirs = places(items, is_made, n);
        assert forall|k: int| 0 <= k < files.len() implies less[#[trigger] files[k]]
            == items[files[k]] && 0 <= files[k] < n by {
            lemma_places_inside(items, is_file, n, k);
        }
        assert(litter.map_values(named) =~= litter.map_values(|i: int| entry_name(less[i]))) by {
            assert forall|k: int| 0 <= k < litter.len() implies 0 <= #[trigger] litter[k] < n by {
                lemma_places_inside(items, is_skipped, n, k);
            }
        }
        assert(dirs.map_values(at) =~= dirs.map_values(
            |i: int| under(work, entry_name(less[i])),
        )) by {
            assert forall|k: int| 0 <= k < dirs.len() implies 0 <= #[trigger] dirs[k] < n by {
                lemma_places_inside(items, is_made, n, k);
            }
        }
        let path = under(work, entry_name(item));
        if is_litter(item) {
            assert(p.skipped =~= places(items, is_skipped, items.len()).map_values(named));
        } else if is_content(item) {
            let a = q.steps.push(ImportStepOf::MakeParent(path));
            assert(a.drop_last() =~= q.steps);
            assert(p.steps.drop_last() =~= a);
            assert(writes(a) == writes(q.steps));
            assert(made_dirs(a) == made_dirs(q.steps));
            assert(writes(p.steps) == writes(q.steps).push((path, item.data->Ok_0)));
            assert(places(items, is_file, items.len()) == files.push(n as int));
        } else {
            assert(p.steps.drop_last() =~= q.steps);
            assert(made_dirs(p.steps) =~= places(items, is_made, items.len()).map_values(at));
        }
        assert forall|k: int| 0 <= k < p.steps.len() implies ((
        #[trigger] p.steps[k]) matches ImportStepOf::WriteFile { path, data } ==> k > 0
            && p.steps[k - 1] == ImportStepModel::MakeParent(path)) by {
            if k < q.steps.len() {
                assert(p.steps[k] == q.steps[k]);
                if k > 0 {
                    assert(p.steps[k - 1] == q.steps[k - 1]);
                }
            }
        }
    }
}

/// An archive is refused exactly for the first of its entries that there is an objection to: one that
/// cannot be read, one whose path leads out of the wiki, a symbolic link, or a file whose content
/// cannot be had. Everything before it is done as without it.
pub proof fn law_archives_are_refused_for_a_reason(work: Seq<char>, items: Seq<ZipItem>, n: int)
    requires
        0 <= n <= items.len(),
        forall|i: int| 0 <= i < n ==> objection(#[trigger] items[i]) is None,
        n < items.len() ==> objection(items[n]) is Some,
    ensures
        n == items.len() ==> plan_of(work, items).failure is None,
        n < items.len() ==> plan_of(work, items).failure == objection(items[n]) && plan_of(
            work,
            items,
        ).imported == plan_of(work, items.take(n)).imported && writes(plan_of(work, items).steps)
            == writes(plan_of(work, items.take(n)).steps),
    decreases n,
{
    if n > 0 {
        let less = items.take(n);
        assert(less.drop_last() =~= items.take(n - 1));
        assert(less.last() == items[n - 1]);
        assert forall|i: int| 0 <= i < n - 1 implies objection(
            #[trigger] items.take(n - 1)[i],
        ) is None by {
            assert(items.take(n - 1)[i] == items[i]);
        }
        law_archives_are_refused_for_a_reason(work, items.take(n - 1), n - 1);
        lemma_objection(plan_of(work, items.take(n - 1)), work, items[n - 1]);
        assert(plan_of(work, less).failure is None);
    }
    if n == items.len() {
        assert(items.take(n) =~= items);
    } else {
        let more = items.take(n + 1);
        assert(more.drop_last() =~= items.take(n));
        assert(more.last() == items[n]);
        let p = plan_of(work, items.take(n));
        lemma_objection(p, work, items[n]);
        lemma_failure_stays(work, items, n + 1);
        let q = plan_of(work, more);
        if q.steps.len() > p.steps.len() {
            assert(q.steps.drop_last() =~= p.steps);
        }
    }
}

/// Bytes that are no archive are refused, and nothing is done; an archive is taken by its entries.
pub proof fn law_only_archives_are_imported(work: Seq<char>, bytes: Seq<u8>)
    ensures
        match zip_contents(bytes) {
            Ok(items) => plan_for(work, bytes) == plan_of(work, items),
            Err(why) => plan_for(work, bytes).failure == Some("zip 解析失败："@ + why) && plan_for(
                work,
                bytes,
            ).steps.len() == 0,
        },
{
}

/// Whatever a plan holds, an entry adds nothing but its own: the litter a name to skip, a file the one
/// writing of its whole content, and a directory the making of it.
pub proof fn law_entries_are_taken_one_by_one(p: Plan, work: Seq<char>, item: ZipItem)
    requires
        objection(item) is None,
    ensures
        ({
            let q = with_item(p, work, item);
            let path = under(work, entry_name(item));
            &&& q.failure == p.failure
            &&& is_content(item) ==> writes(q.steps) == writes(p.steps).push(
                (path, item.data->Ok_0),
            ) && q.imported == p.imported.push(entry_name(item))
            &&& !is_content(item) ==> writes(q.steps) == writes(p.steps) && q.imported == p.imported
            &&& is_litter(item) ==> q.skipped == p.skipped.push(entry_name(item)) && q.steps
                == p.steps
            &&& !is_litter(item) ==> q.skipped == p.skipped
            &&& !is_litter(item) && !is_content(item) ==> made_dirs(q.steps) == made_dirs(
                p.steps,
            ).push(path)
        }),
{
    lemma_objection(p, work, item);
    let q = with_item(p, work, item);
    if !is_litter(item) {
        let path = under(work, entry_name(item));
        if is_content(item) {
            let a = p.steps.push(ImportStepOf::MakeParent(path));
            assert(a.drop_last() =~= p.steps);
            assert(q.steps.drop_last() =~= a);
            assert(writes(a) == writes(p.steps));
        } else {
            assert(q.steps.drop_last() =~= p.steps);
        }
    }
}

/// The model of what is read of an archive is what was read: the whole name, the mode, every byte of
/// the content, or why it could not be had.
pub proof fn law_entries_are_modelled_whole(name: String, mode: Option<u32>, data: Vec<u8>, why: String)
    ensures
        head_model(Ok(EntryHead { name, mode })) == Ok::<(Seq<char>, Option<u32>), Seq<char>>(
            (name@, mode),
        ),
        head_model(Err(why)) == Err::<(Seq<char>, Option<u32>), Seq<char>>(why@),
        data_model(Ok(data)) == Ok::<Seq<u8>, Seq<char>>(data@),
        data_model(Err(why)) == Err::<Seq<u8>, Seq<char>>(why@),
{
}

/// The model of a plan is the plan: its steps, its reports and its failure, one for one.
pub proof fn law_plans_are_modelled_whole(p: ImportPlan, i: int)
    ensures
        p@.steps.len() == p.steps@.len(),
        0 <= i < p.steps@.len() ==> p@.steps[i] == p.steps@[i]@,
        p@.imported.len() == p.imported@.len(),
        0 <= i < p.imported@.len() ==> p@.imported[i] == p.imported@[i]@,
        p@.skipped.len() == p.skipped@.len(),
        0 <= i < p.skipped@.len() ==> p@.skipped[i] == p.skipped@[i]@,
        p.failure is Some <==> p@.failure is Some,
        p.failure is Some ==> p@.failure->0 == p.failure->0@,
{
}

} // verus!
