//! Reading a page of the wiki.

use crate::paths::{escapes_root, is_within};
#[allow(unused_imports)]
use crate::paths::{escapes, within};
use crate::reply::{refuse, text_field, two, Reply};
#[allow(unused_imports)]
use crate::reply::{refusal, text_member, Answer};
use vstd::prelude::*;

verus! {

/// Where the page `rel` lies: below the real path of the wiki's root, at the real path of what
/// `rel` names there, which must be a file. Otherwise, what to answer.
pub open spec fn resolved(
    root: Result<Seq<char>, Seq<char>>,
    rel: Seq<char>,
    target: Option<Seq<char>>,
    is_file: bool,
) -> Result<Seq<char>, Answer> {
    match root {
        Err(why) => Err(refusal(500, why)),
        Ok(root) => if escapes(rel) {
            Err(refusal(400, "非法路径：越出知识库目录"@))
        } else {
            match target {
                None => Err(refusal(404, "页面不存在"@)),
                Some(target) => if !within(root, target) {
                    Err(refusal(400, "非法路径：越出知识库目录"@))
                } else if !is_file {
                    Err(refusal(400, "目标不是文件"@))
                } else {
                    Ok(target)
                },
            }
        },
    }
}

/// Where the page `rel` lies, given the real path of the root, the real path of what `rel` names
/// in it, if that exists, and whether that is a file.
pub fn resolve_page(
    root: Result<String, String>,
    rel: &str,
    target: Option<String>,
    is_file: bool,
) -> (r: Result<String, Reply>)
    ensures
        (match r {
            Ok(path) => Ok(path@),
            Err(reply) => Err(reply@),
        }) == resolved(
            match root {
                Ok(root) => Ok(root@),
                Err(why) => Err(why@),
            },
            rel@,
            crate::flow::maybe(target),
            is_file,
        ),
{
    let root = match root {
        Ok(root) => root,
        Err(why) => {
            return Err(refuse(500, why));
        },
    };
    if escapes_root(rel) {
        return Err(refuse(400, "非法路径：越出知识库目录".to_owned()));
    }
    let target = match target {
        Some(target) => target,
        None => {
            return Err(refuse(404, "页面不存在".to_owned()));
        },
    };
    if !is_within(root.as_str(), target.as_str()) {
        return Err(refuse(400, "非法路径：越出知识库目录".to_owned()));
    }
    if !is_file {
        return Err(refuse(400, "目标不是文件".to_owned()));
    }
    Ok(target)
}

/// What a request for a page is answered.
pub open spec fn page_answer(path: Seq<char>, content: Result<Seq<char>, Seq<char>>) -> Answer {
    match content {
        Ok(content) => Answer {
            status: 200,
            body: seq![text_member("path"@, path), text_member("content"@, content)],
        },
        Err(why) => refusal(500, why),
    }
}

/// What a request for a page is answered, given its text or why it cannot be read.
pub fn page_reply(path: &str, content: Result<String, String>) -> (r: Reply)
    ensures
        r@ == page_answer(
            path@,
            match content {
                Ok(content) => Ok(content@),
                Err(why) => Err(why@),
            },
        ),
{
    match content {
        Ok(content) => Reply {
            status: 200,
            body: two(text_field("path", path.to_owned()), text_field("content", content)),
        },
        Err(why) => refuse(500, why),
    }
}

/// A page that is read lies in the wiki, whatever path was asked for, and wherever links lead.
pub proof fn law_pages_lie_in_the_wiki(
    root: Seq<char>,
    rel: Seq<char>,
    target: Option<Seq<char>>,
    is_file: bool,
)
    ensures
        resolved(Ok(root), rel, target, is_file) matches Ok(path) ==> within(root, path)
            && Some(path) == target && is_file,
        escapes(rel) ==> resolved(Ok(root), rel, target, is_file) == Err::<Seq<char>, Answer>(
            refusal(400, "非法路径：越出知识库目录"@),
        ),
{
}

/// Which pages are read, and what a request for any other is answered: a page is read at the real path
/// of what was asked for, exactly if that does not leave the wiki, exists, lies in the wiki and is a
/// file.
pub proof fn law_pages_are_found_where_they_are(
    root: Result<Seq<char>, Seq<char>>,
    rel: Seq<char>,
    target: Option<Seq<char>>,
    is_file: bool,
)
    ensures
        match (root, target) {
            (Err(why), _) => resolved(root, rel, target, is_file) == Err::<Seq<char>, Answer>(
                refusal(500, why),
            ),
            (Ok(_), None) => !escapes(rel) ==> resolved(root, rel, target, is_file) == Err::<
                Seq<char>,
                Answer,
            >(refusal(404, "页面不存在"@)),
            (Ok(top), Some(path)) => !escapes(rel) ==> resolved(root, rel, target, is_file) == (
            if !within(top, path) {
                Err::<Seq<char>, Answer>(refusal(400, "非法路径：越出知识库目录"@))
            } else if !is_file {
                Err(refusal(400, "目标不是文件"@))
            } else {
                Ok(path)
            }),
        },
        root is Ok && escapes(rel) ==> resolved(root, rel, target, is_file) == Err::<
            Seq<char>,
            Answer,
        >(refusal(400, "非法路径：越出知识库目录"@)),
{
}

/// A page is answered with the path that was asked for and with its text, all of it; why it could not
/// be read is told.
pub proof fn law_pages_are_told_in_full(path: Seq<char>, content: Result<Seq<char>, Seq<char>>)
    ensures
        match content {
            Ok(text) => page_answer(path, content).status == 200 && page_answer(path, content).body
                == seq![
                crate::reply::Member {
                    key: "path"@,
                    value: crate::reply::ValueOf::Text(path),
                },
                crate::reply::Member {
                    key: "content"@,
                    value: crate::reply::ValueOf::Text(text),
                },
            ],
            Err(why) => page_answer(path, content) == refusal(500, why),
        },
{
}

} // verus!
