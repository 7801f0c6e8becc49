//! The fixed English category names and the classification prompt built from them.
use vstd::prelude::*;
use vstd::string::*;

verus! {

/// Category names with their (Chinese) descriptions.
pub const CATEGORIES: [(&'static str, &'static str); 8] = [
    ("belief", "观点、看法和人生感悟"),
    ("idea", "想法、灵感和创意"),
    ("plan", "未来计划和准备做的事情"),
    ("activity", "已经完成或正在做的事情"),
    ("mood", "心情、情绪和睡眠"),
    ("reminder", "需要记住、提醒和重要日期"),
    ("health", "生病、症状和身体状况"),
    ("other", "有价值但不属于其他类型的内容"),
];

/// The text of the classification prompt that precedes the category list.
pub const PROMPT_HEAD: &'static str = "你是个人记录分类器。为每条记录选择一个或多个最合适的分类。只能使用下面的英文 name，不要创建新分类：\n";

/// The text of the classification prompt that follows the category list.
pub const PROMPT_TAIL: &'static str = "\n输出 JSON 对象 {\"assignments\":[{\"log_id\":\"...\",\"categories\":[\"...\"]}]}。每条记录至少选择一个分类。";

/// The category names.
pub open spec fn category_names() -> Seq<Seq<char>> {
    CATEGORIES@.map_values(|c: (&str, &str)| c.0@)
}

/// One line of the category list: `- name: description`.
pub open spec fn spec_category_line(name: Seq<char>, description: Seq<char>) -> Seq<char> {
    "- "@ + name + ": "@ + description
}

/// The lines joined by line feeds.
pub open spec fn spec_join_lines(lines: Seq<Seq<char>>) -> Seq<char>
    decreases lines.len(),
{
    if lines.len() == 0 {
        Seq::empty()
    } else if lines.len() == 1 {
        lines[0]
    } else {
        spec_join_lines(lines.drop_last()) + seq!['\n'] + lines.last()
    }
}

/// The category list lines, in table order.
pub open spec fn spec_category_lines() -> Seq<Seq<char>> {
    CATEGORIES@.map_values(|c: (&str, &str)| spec_category_line(c.0@, c.1@))
}

/// The full classification prompt.
pub open spec fn spec_prompt() -> Seq<char> {
    PROMPT_HEAD@ + spec_join_lines(spec_category_lines()) + PROMPT_TAIL@
}

/// Whether `value` is one of the category names.
pub fn is_valid(value: &str) -> (r: bool)
    ensures
        r == category_names().contains(value@),
{
    let mut i: usize = 0;
    while i < 8
        invariant
            i <= 8,
            forall|j: int| 0 <= j < i ==> category_names()[j] != value@,
        decreases 8 - i,
    {
        if crate::text::str_eq(CATEGORIES[i].0, value) {
            assert(category_names()[i as int] == value@);
            return true;
        }
        i = i + 1;
    }
    false
}

/// The prompt asking a model to assign one or more of the categories to each log.
pub fn prompt() -> (r: String)
    ensures
        r@ == spec_prompt(),
{
    let ghost lines = spec_category_lines();
    let mut choices = String::new();
    let mut i: usize = 0;
    assert(lines.take(0) =~= Seq::<Seq<char>>::empty());
    while i < 8
        invariant
            i <= 8,
            lines == spec_category_lines(),
            choices@ == spec_join_lines(lines.take(i as int)),
        decreases 8 - i,
    {
        let (name, description) = CATEGORIES[i];
        if i > 0 {
            crate::text::push_char(&mut choices, '\n');
        }
        choices.append("- ");
        choices.append(name);
        choices.append(": ");
        choices.append(description);
        assert(lines.take(i + 1).drop_last() =~= lines.take(i as int));
        assert(lines.take(i + 1).last() == spec_category_line(name@, description@));
        if i == 0 {
            assert(choices@ =~= spec_join_lines(lines.take(1)));
        } else {
            assert(choices@ =~= spec_join_lines(lines.take(i + 1)));
        }
        i = i + 1;
    }
    assert(lines.take(8) =~= lines);
    let mut out = String::new();
    out.append(PROMPT_HEAD);
    out.append(choices.as_str());
    out.append(PROMPT_TAIL);
    assert(out@ =~= spec_prompt());
    out
}

} // verus!
