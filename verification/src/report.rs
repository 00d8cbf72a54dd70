//! The texts posted back to the submitter when a submission is declined.

use vstd::prelude::*;
use crate::text::deep_of;

verus! {

/// The decline text when no usable document URL is found.
pub open spec fn no_url_message() -> Seq<char> {
    "无法在 Issue 中找到有效的“TTML 歌词文件下载直链”。"@
}

/// The decline text for a parse failure, wrapping the engine's detail.
pub open spec fn parse_fail_message(detail: Seq<char>) -> Seq<char> {
    "解析 TTML 文件失败: `"@ + detail + "`"@
}

/// Lines joined with a separator between them.
pub open spec fn joined_with(ls: Seq<Seq<char>>, sep: Seq<char>) -> Seq<char>
    decreases ls.len(),
{
    if ls.len() == 0 {
        seq![]
    } else if ls.len() == 1 {
        ls[0]
    } else {
        joined_with(ls.drop_last(), sep) + sep + ls.last()
    }
}

/// The decline text for validation errors: a heading, then every error on
/// its own bullet line.
pub open spec fn validation_message(errors: Seq<Seq<char>>) -> Seq<char> {
    "文件验证失败:\n- "@ + joined_with(errors, "\n- "@)
}

/// Push every character of `src` onto `dst`.
#[verifier::loop_isolation(false)]
pub fn append_chars(dst: &mut Vec<char>, src: &Vec<char>)
    ensures
        final(dst)@ == old(dst)@ + src@,
{
    let mut i: usize = 0;
    proof {
        assert(dst@ =~= dst@ + src@.subrange(0, 0));
    }
    while i < src.len()
        invariant
            0 <= i <= src.len(),
            dst@ == old(dst)@ + src@.subrange(0, i as int),
        decreases src.len() - i,
    {
        dst.push(src[i]);
        assert(dst@ =~= old(dst)@ + src@.subrange(0, i + 1));
        i = i + 1;
    }
    proof {
        assert(dst@ =~= old(dst)@ + src@);
    }
}

/// The decline text when no usable document URL is found.
pub fn no_url_text() -> (r: Vec<char>)
    ensures
        r@ == no_url_message(),
{
    crate::text::chars_of("无法在 Issue 中找到有效的“TTML 歌词文件下载直链”。")
}

/// Build the parse-failure decline text around the engine's detail.
pub fn parse_fail_text(detail: &Vec<char>) -> (r: Vec<char>)
    ensures
        r@ == parse_fail_message(detail@),
{
    let mut r = crate::text::chars_of("解析 TTML 文件失败: `");
    append_chars(&mut r, detail);
    let tick = crate::text::chars_of("`");
    append_chars(&mut r, &tick);
    proof {
        assert(r@ =~= parse_fail_message(detail@));
    }
    r
}

/// Appending one more part extends the joined text by a separator and it.
proof fn lemma_joined_push(ls: Seq<Seq<char>>, sep: Seq<char>, x: Seq<char>)
    ensures
        joined_with(ls.push(x), sep) == if ls.len() == 0 {
            x
        } else {
            joined_with(ls, sep) + sep + x
        },
{
    let p = ls.push(x);
    if ls.len() == 0 {
        assert(p.len() == 1);
        assert(p[0] == x);
    } else {
        assert(p.drop_last() =~= ls);
        assert(p.last() == x);
    }
}

/// Build the validation-failure decline text: the heading, then every error
/// in order, each introduced by its own bullet.
#[verifier::loop_isolation(false)]
pub fn validation_fail_text(errors: &Vec<Vec<char>>) -> (r: Vec<char>)
    ensures
        r@ == validation_message(deep_of(errors@)),
{
    let mut r = crate::text::chars_of("文件验证失败:\n- ");
    let ghost head = r@;
    let sep = crate::text::chars_of("\n- ");
    let mut i: usize = 0;
    proof {
        assert(deep_of(errors@).subrange(0, 0) =~= Seq::<Seq<char>>::empty());
    }
    while i < errors.len()
        invariant
            0 <= i <= errors.len(),
            r@ == head + joined_with(deep_of(errors@).subrange(0, i as int), "\n- "@),
            sep@ == "\n- "@,
        decreases errors.len() - i,
    {
        let ghost prefix = deep_of(errors@).subrange(0, i as int);
        if i > 0 {
            append_chars(&mut r, &sep);
        }
        append_chars(&mut r, &errors[i]);
        proof {
            lemma_joined_push(prefix, "\n- "@, deep_of(errors@)[i as int]);
            assert(deep_of(errors@).subrange(0, i + 1) =~= prefix.push(deep_of(errors@)[i as int]));
            if i == 0 {
                assert(r@ =~= head + joined_with(deep_of(errors@).subrange(0, i + 1), "\n- "@));
            } else {
                assert(r@ =~= head + joined_with(deep_of(errors@).subrange(0, i + 1), "\n- "@));
            }
        }
        i = i + 1;
    }
    proof {
        assert(deep_of(errors@).subrange(0, deep_of(errors@).len() as int) =~= deep_of(errors@));
    }
    r
}


/// The text of the confirmation comment posted on success.
pub open spec fn success_message() -> Seq<char> {
    "验证通过，已生成 TTML 并创建变更请求。"@
}

/// Build the success confirmation comment.
pub fn success_comment_text() -> (r: Vec<char>)
    ensures
        r@ == success_message(),
{
    crate::text::chars_of("验证通过，已生成 TTML 并创建变更请求。")
}

/// The whole decline comment: the reason and, when the document was
/// resolved, its original content fenced for the submitter's diagnosis.
pub open spec fn decline_comment_message(
    reason: Seq<char>,
    original: Seq<char>,
    with_content: bool,
) -> Seq<char> {
    if with_content {
        reason + "\n\n原始文件内容：\n```xml\n"@ + original + "\n```"@
    } else {
        reason
    }
}

/// Build the decline comment body. Without content it is the reason alone,
/// so a missing-URL decline carries no raw document text.
pub fn decline_comment_body(reason: &Vec<char>, original: &Vec<char>, with_content: bool) -> (r:
    Vec<char>)
    ensures
        r@ == decline_comment_message(reason@, original@, with_content),
{
    let mut r = crate::fields::copy_chars(reason);
    if !with_content {
        return r;
    }
    let fence_open = crate::text::chars_of("\n\n原始文件内容：\n```xml\n");
    append_chars(&mut r, &fence_open);
    append_chars(&mut r, original);
    let fence_close = crate::text::chars_of("\n```");
    append_chars(&mut r, &fence_close);
    proof {
        assert(r@ =~= decline_comment_message(reason@, original@, true));
    }
    r
}

/// The decimal digit character for a value under ten.
pub open spec fn digit_of(d: int) -> char {
    ((d + 48) as u8) as char
}

/// The decimal text of a nonnegative number, most significant digit first.
pub open spec fn spec_decimal(n: int) -> Seq<char>
    decreases n,
{
    if n < 10 {
        seq![digit_of(n)]
    } else {
        spec_decimal(n / 10).push(digit_of(n % 10))
    }
}

/// Render a number as decimal text.
pub fn format_u64(n: u64) -> (r: Vec<char>)
    ensures
        r@ == spec_decimal(n as int),
    decreases n,
{
    if n < 10 {
        let mut r: Vec<char> = Vec::new();
        r.push((n as u8 + 48) as char);
        proof {
            assert(r@ =~= seq![digit_of(n as int)]);
        }
        r
    } else {
        let mut r = format_u64(n / 10);
        r.push(((n % 10) as u8 + 48) as char);
        r
    }
}

/// Items each on a line of its own, introduced by a bullet.
pub open spec fn bulleted(ws: Seq<Seq<char>>) -> Seq<char>
    decreases ws.len(),
{
    if ws.len() == 0 {
        seq![]
    } else {
        bulleted(ws.drop_last()) + "- "@ + ws.last() + "\n"@
    }
}

/// Appending one item extends the bulleted text by its line.
proof fn lemma_bulleted_push(ws: Seq<Seq<char>>, x: Seq<char>)
    ensures
        bulleted(ws.push(x)) == bulleted(ws) + "- "@ + x + "\n"@,
{
    let p = ws.push(x);
    assert(p.drop_last() =~= ws);
    assert(p.last() == x);
}

/// Append the items as bullet lines.
#[verifier::loop_isolation(false)]
pub fn append_bulleted(dst: &mut Vec<char>, items: &Vec<Vec<char>>)
    ensures
        final(dst)@ == old(dst)@ + bulleted(deep_of(items@)),
{
    let dash = crate::text::chars_of("- ");
    let nl = crate::text::chars_of("\n");
    let mut i: usize = 0;
    proof {
        assert(deep_of(items@).subrange(0, 0) =~= Seq::<Seq<char>>::empty());
        assert(dst@ =~= dst@ + bulleted(deep_of(items@).subrange(0, 0)));
    }
    while i < items.len()
        invariant
            0 <= i <= items.len(),
            dash@ == "- "@,
            nl@ == "\n"@,
            dst@ == old(dst)@ + bulleted(deep_of(items@).subrange(0, i as int)),
        decreases items.len() - i,
    {
        let ghost prefix = deep_of(items@).subrange(0, i as int);
        append_chars(dst, &dash);
        append_chars(dst, &items[i]);
        append_chars(dst, &nl);
        proof {
            lemma_bulleted_push(prefix, deep_of(items@)[i as int]);
            assert(deep_of(items@).subrange(0, i + 1) =~= prefix.push(deep_of(items@)[i as int]));
            assert(dst@ =~= old(dst)@ + bulleted(deep_of(items@).subrange(0, i + 1)));
        }
        i = i + 1;
    }
    proof {
        assert(deep_of(items@).subrange(0, deep_of(items@).len() as int) =~= deep_of(items@));
    }
}

/// The change request's description: the closing reference to the issue,
/// then the submitter's remarks, the accumulated parse warnings and the
/// metadata store's contents, each section only when it has something.
pub open spec fn change_request_message(
    number: int,
    remarks: Seq<char>,
    warnings: Seq<Seq<char>>,
    metadata: Seq<Seq<char>>,
) -> Seq<char> {
    let head = "Closes #"@ + spec_decimal(number) + "\n"@;
    let with_remarks = if remarks.len() > 0 {
        head + "\n备注：\n"@ + remarks + "\n"@
    } else {
        head
    };
    let with_warnings = if warnings.len() > 0 {
        with_remarks + "\n解析警告：\n"@ + bulleted(warnings)
    } else {
        with_remarks
    };
    if metadata.len() > 0 {
        with_warnings + "\n元数据：\n"@ + bulleted(metadata)
    } else {
        with_warnings
    }
}

/// Build the change request's description.
pub fn change_request_body(
    number: u64,
    remarks: &Vec<char>,
    warnings: &Vec<Vec<char>>,
    metadata: &Vec<Vec<char>>,
) -> (r: Vec<char>)
    ensures
        r@ == change_request_message(
            number as int,
            remarks@,
            deep_of(warnings@),
            deep_of(metadata@),
        ),
{
    let mut r = crate::text::chars_of("Closes #");
    let num = format_u64(number);
    append_chars(&mut r, &num);
    let nl = crate::text::chars_of("\n");
    append_chars(&mut r, &nl);
    proof {
        assert(r@ =~= "Closes #"@ + spec_decimal(number as int) + "\n"@);
    }
    if remarks.len() > 0 {
        let head = crate::text::chars_of("\n备注：\n");
        append_chars(&mut r, &head);
        append_chars(&mut r, remarks);
        append_chars(&mut r, &nl);
        proof {
            assert(r@ =~= ("Closes #"@ + spec_decimal(number as int) + "\n"@) + "\n备注：\n"@
                + remarks@ + "\n"@);
        }
    }
    let ghost after_remarks = r@;
    if warnings.len() > 0 {
        let head = crate::text::chars_of("\n解析警告：\n");
        append_chars(&mut r, &head);
        append_bulleted(&mut r, warnings);
        proof {
            assert(r@ =~= after_remarks + "\n解析警告：\n"@ + bulleted(deep_of(warnings@)));
        }
    }
    let ghost after_warnings = r@;
    if metadata.len() > 0 {
        let head = crate::text::chars_of("\n元数据：\n");
        append_chars(&mut r, &head);
        append_bulleted(&mut r, metadata);
        proof {
            assert(r@ =~= after_warnings + "\n元数据：\n"@ + bulleted(deep_of(metadata@)));
        }
    }
    r
}

} // verus!
