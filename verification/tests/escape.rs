//! Tests of the Markdown-escape pass.

use transmark::markdown_text::escape_markdown;

fn escaped(text: &str) -> String {
    String::from_utf8(escape_markdown(text.as_bytes())).unwrap()
}

#[test]
fn escape() {
    let md = r#"
<https://www.markdownguide.org/basic-syntax/>

<html></html>

# Heading level 1
## Heading level 2
### Heading level 3
#### Heading level 4
##### Heading level 5
###### Heading level 6

Heading level 1
===============
Heading level 2
---------------

I just love **bold text**.
I just love __bold text__.
Love**is**bold

Italicized text is the *cat's meow*.
Italicized text is the _cat's meow_.
A*cat*meow

> Dorothy followed her through many of the beautiful rooms in her castle.

> Dorothy followed her through many of the beautiful rooms in her castle.
>
>> The Witch bade her clean the pots and kettles and sweep the floor and keep the fire fed with wood.

1. First item
2. Second item
3. Third item
4. Fourth item

1. First item
2. Second item
3. Third item
    1. Indented item
    2. Indented item
4. Fourth item

- First item
- Second item
- Third item
    - Indented item
    - Indented item
- Fourth item

***
---
_________________

At the command prompt, type `nano`.
``Use `code` in your Markdown file.``
```json
{
    "firstName": "John",
    "lastName": "Smith",
    "age": 25
}
```

My favorite search engine is [Duck Duck Go](https://duckduckgo.com "The best search engine for privacy").
		"#;

    let esc = r#"
\<https://www.markdownguide.org/basic-syntax/>

\<html></html>

\# Heading level 1
\## Heading level 2
\### Heading level 3
\#### Heading level 4
\##### Heading level 5
\###### Heading level 6

Heading level 1
\===============
Heading level 2
\---------------

I just love \**bold text\**.
I just love \__bold text\__.
Love\**is\**bold

Italicized text is the \*cat's meow\*.
Italicized text is the \_cat's meow\_.
A\*cat\*meow

\> Dorothy followed her through many of the beautiful rooms in her castle.

\> Dorothy followed her through many of the beautiful rooms in her castle.
\>
\>> The Witch bade her clean the pots and kettles and sweep the floor and keep the fire fed with wood.

1\. First item
2\. Second item
3\. Third item
4\. Fourth item

1\. First item
2\. Second item
3\. Third item
    1\. Indented item
    2\. Indented item
4\. Fourth item

\- First item
\- Second item
\- Third item
    \- Indented item
    \- Indented item
\- Fourth item

\***
\---
\_________________

At the command prompt, type \`nano\`.
\``Use \`code\` in your Markdown file.\``
\```json
{
    "firstName": "John",
    "lastName": "Smith",
    "age": 25
}
\```

My favorite search engine is \[Duck Duck Go](https://duckduckgo.com "The best search engine for privacy").
		"#;

    assert_eq!(escaped(md), esc.to_string());
}

#[test]
fn escape_heading_run_caps_at_six() {
    assert_eq!(escaped("####### seven"), "\\######\\# seven");
}

#[test]
fn escape_ordered_list_dot() {
    assert_eq!(escaped("12. point"), "12\\. point");
    assert_eq!(escaped("a. point"), "a. point");
}

#[test]
fn escape_line_start_markers() {
    assert_eq!(escaped("- a"), "\\- a");
    assert_eq!(escaped("+ a"), "\\+ a");
    assert_eq!(escaped("> a"), "\\> a");
    assert_eq!(escaped("a-b"), "a-b");
}

#[test]
fn escape_is_not_idempotent() {
    let once = escaped("#");
    let twice = escaped(&once);
    assert_eq!(once, "\\#");
    assert_eq!(twice, "\\\\#");
    assert_ne!(once, twice);
}

#[test]
fn escape_angle_tag_spans_to_last_gt_on_line() {
    assert_eq!(escaped("<a><b>\nplain"), "\\<a><b>\nplain");
    assert_eq!(escaped("<open"), "<open");
}
