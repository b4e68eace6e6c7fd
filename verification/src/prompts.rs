//! What agents are asked to do.

use crate::paths::file_stem;
#[allow(unused_imports)]
use crate::paths::{file_name, stem};
use crate::text::{cat, cat3};
#[allow(unused_imports)]
use crate::text::{ends, starts};
use vstd::prelude::*;

verus! {

/// The request to take an uploaded file into the wiki.
pub open spec fn ingest_text(rel: Seq<char>, filename: Seq<char>) -> Seq<char> {
    "将上传文件 "@ + rel + "（原始文件名 "@ + filename
        + "）入库到知识库，work_dir 即知识库根目录。规则：先检查根目录是否有 index.md——若无（全新知识库），先用 wiki-init 技能初始化 Wiki，然后用 wiki-ingest 技能入库该文件；若已有则直接 wiki-ingest。不要向用户提问确认，直接执行到底。完成后简述初始化与入库结果（建了哪些页面/类型）。"@
}

/// The name that pages link to a deleted path by.
pub open spec fn link_name(path: Seq<char>) -> Seq<char> {
    match file_name(path) {
        Some(name) => stem(name),
        None => path,
    }
}

/// The request to clean up after a deletion.
pub open spec fn cleanup_text(path: Seq<char>) -> Seq<char> {
    "文件 "@ + path
        + " 已从知识库删除，work_dir 即知识库根目录。请扫描全库（grep 搜索 [["@
        + link_name(path)
        + "]] 引用），清理所有悬空链接（直接移除该 wikilink 或标注\"已删除\"），更新 index.md 检索路由（如有该页条目），如 log.md 需要追加删除记录则追加。完成后简述清理了哪些文件。不要向用户提问。"@
}

/// The request to answer a question from the wiki.
pub open spec fn query_text(question: Seq<char>) -> Seq<char> {
    "使用 wiki-query 技能回答问题："@ + question
}

pub fn ingest_prompt(rel: &str, filename: &str) -> (p: String)
    ensures
        p@ == ingest_text(rel@, filename@),
{
    let head = cat3("将上传文件 ", rel, "（原始文件名 ");
    cat3(
        head.as_str(),
        filename,
        "）入库到知识库，work_dir 即知识库根目录。规则：先检查根目录是否有 index.md——若无（全新知识库），先用 wiki-init 技能初始化 Wiki，然后用 wiki-ingest 技能入库该文件；若已有则直接 wiki-ingest。不要向用户提问确认，直接执行到底。完成后简述初始化与入库结果（建了哪些页面/类型）。",
    )
}

pub fn delete_cleanup_prompt(path: &str) -> (p: String)
    ensures
        p@ == cleanup_text(path@),
{
    let link = match file_stem(path) {
        Some(s) => s,
        None => path.to_owned(),
    };
    let head = cat3(
        "文件 ",
        path,
        " 已从知识库删除，work_dir 即知识库根目录。请扫描全库（grep 搜索 [[",
    );
    cat3(
        head.as_str(),
        link.as_str(),
        "]] 引用），清理所有悬空链接（直接移除该 wikilink 或标注\"已删除\"），更新 index.md 检索路由（如有该页条目），如 log.md 需要追加删除记录则追加。完成后简述清理了哪些文件。不要向用户提问。",
    )
}

pub fn query_prompt(question: &str) -> (p: String)
    ensures
        p@ == query_text(question@),
{
    cat("使用 wiki-query 技能回答问题：", question)
}

/// What an agent is asked to do names what it is about, at the beginning of the request: the file that
/// was stored and the name that it was uploaded under; the path that was deleted and the name that
/// pages link to it by; the question, all of it.
pub proof fn law_prompts_name_their_subject(
    rel: Seq<char>,
    filename: Seq<char>,
    path: Seq<char>,
    question: Seq<char>,
)
    ensures
        starts(ingest_text(rel, filename), "将上传文件 "@ + rel + "（原始文件名 "@ + filename),
        ends(
            ingest_text(rel, filename),
            "）入库到知识库，work_dir 即知识库根目录。规则：先检查根目录是否有 index.md——若无（全新知识库），先用 wiki-init 技能初始化 Wiki，然后用 wiki-ingest 技能入库该文件；若已有则直接 wiki-ingest。不要向用户提问确认，直接执行到底。完成后简述初始化与入库结果（建了哪些页面/类型）。"@,
        ),
        ({
            let name = match file_name(path) {
                Some(name) => stem(name),
                None => path,
            };
            starts(
                cleanup_text(path),
                "文件 "@ + path
                    + " 已从知识库删除，work_dir 即知识库根目录。请扫描全库（grep 搜索 [["@
                    + name,
            ) && cleanup_text(path).len() == ("文件 "@ + path
                + " 已从知识库删除，work_dir 即知识库根目录。请扫描全库（grep 搜索 [["@
                + name).len()
                + "]] 引用），清理所有悬空链接（直接移除该 wikilink 或标注\"已删除\"），更新 index.md 检索路由（如有该页条目），如 log.md 需要追加删除记录则追加。完成后简述清理了哪些文件。不要向用户提问。"@.len()
        }),
        ends(
            cleanup_text(path),
            "]] 引用），清理所有悬空链接（直接移除该 wikilink 或标注\"已删除\"），更新 index.md 检索路由（如有该页条目），如 log.md 需要追加删除记录则追加。完成后简述清理了哪些文件。不要向用户提问。"@,
        ),
        ingest_text(rel, filename).len() == ("将上传文件 "@ + rel + "（原始文件名 "@
            + filename).len()
            + "）入库到知识库，work_dir 即知识库根目录。规则：先检查根目录是否有 index.md——若无（全新知识库），先用 wiki-init 技能初始化 Wiki，然后用 wiki-ingest 技能入库该文件；若已有则直接 wiki-ingest。不要向用户提问确认，直接执行到底。完成后简述初始化与入库结果（建了哪些页面/类型）。"@.len(),
        starts(query_text(question), "使用 wiki-query 技能回答问题："@),
        ends(query_text(question), question),
        query_text(question).len() == "使用 wiki-query 技能回答问题："@.len() + question.len(),
{
    let a = "将上传文件 "@ + rel + "（原始文件名 "@ + filename;
    let p = ingest_text(rel, filename);
    assert(p.take(a.len() as int) =~= a);
    let b =
        "）入库到知识库，work_dir 即知识库根目录。规则：先检查根目录是否有 index.md——若无（全新知识库），先用 wiki-init 技能初始化 Wiki，然后用 wiki-ingest 技能入库该文件；若已有则直接 wiki-ingest。不要向用户提问确认，直接执行到底。完成后简述初始化与入库结果（建了哪些页面/类型）。"@;
    assert(p.skip(p.len() - b.len()) =~= b);
    let q = cleanup_text(path);
    let c = "文件 "@ + path
        + " 已从知识库删除，work_dir 即知识库根目录。请扫描全库（grep 搜索 [["@
        + link_name(path);
    assert(q.take(c.len() as int) =~= c);
    let d =
        "]] 引用），清理所有悬空链接（直接移除该 wikilink 或标注\"已删除\"），更新 index.md 检索路由（如有该页条目），如 log.md 需要追加删除记录则追加。完成后简述清理了哪些文件。不要向用户提问。"@;
    assert(q.skip(q.len() - d.len()) =~= d);
    let r = query_text(question);
    let e = "使用 wiki-query 技能回答问题："@;
    assert(r.take(e.len() as int) =~= e);
    assert(r.skip(r.len() - question.len()) =~= question);
}

} // verus!
