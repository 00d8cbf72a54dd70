use lyric_checker::report::{
    change_request_body, decline_comment_body, format_u64, success_comment_text,
};

fn chars(s: &str) -> Vec<char> {
    s.chars().collect()
}

fn to_string(v: &[char]) -> String {
    v.iter().collect()
}

#[test]
fn success_text_is_exact() {
    assert_eq!(
        to_string(&success_comment_text()),
        "验证通过，已生成 TTML 并创建变更请求。"
    );
}

#[test]
fn decline_body_without_content_is_the_reason_alone() {
    let body = decline_comment_body(&chars("原因"), &chars("<tt/>"), false);
    assert_eq!(to_string(&body), "原因");
}

#[test]
fn decline_body_with_content_fences_the_original() {
    let body = decline_comment_body(&chars("原因"), &chars("<tt/>"), true);
    assert_eq!(
        to_string(&body),
        "原因\n\n原始文件内容：\n```xml\n<tt/>\n```"
    );
}

#[test]
fn numbers_format_exactly() {
    assert_eq!(to_string(&format_u64(0)), "0");
    assert_eq!(to_string(&format_u64(7)), "7");
    assert_eq!(to_string(&format_u64(12345)), "12345");
    assert_eq!(to_string(&format_u64(u64::MAX)), "18446744073709551615");
}

#[test]
fn change_request_description_with_everything() {
    let body = change_request_body(
        42,
        &chars("多谢"),
        &vec![chars("警告一"), chars("警告二")],
        &vec![chars("title: 歌名")],
    );
    assert_eq!(
        to_string(&body),
        "Closes #42\n\n备注：\n多谢\n\n解析警告：\n- 警告一\n- 警告二\n\n元数据：\n- title: 歌名\n"
    );
}

#[test]
fn change_request_description_minimal() {
    let body = change_request_body(7, &chars(""), &Vec::new(), &Vec::new());
    assert_eq!(to_string(&body), "Closes #7\n");
}
