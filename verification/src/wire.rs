//! The counter line: the text that stands for one increment on the wire.
//!
//! A line is the metric name, `:1|c`, and then, where the event has tags,
//! `|#` and the tags as `key:value`, separated by commas. The name is the
//! client's prefix followed by the label of the call.

use crate::tags::{outgoing, version_tag, TagText};
use vstd::prelude::*;

verus! {

/// One tag on the wire: key, colon, value.
pub open spec fn tag_text(tag: TagText) -> Seq<char> {
    tag.0 + seq![':'] + tag.1
}

/// The tags on the wire, in order, with a comma between neighbours.
pub open spec fn tag_list(tags: Seq<TagText>) -> Seq<char>
    decreases tags.len(),
{
    if tags.len() == 0 {
        Seq::empty()
    } else if tags.len() == 1 {
        tag_text(tags[0])
    } else {
        tag_list(tags.drop_last()) + seq![','] + tag_text(tags.last())
    }
}

/// What follows the counter's value and type: nothing where there is no tag,
/// else `|#` and the tags.
pub open spec fn tag_suffix(tags: Seq<TagText>) -> Seq<char> {
    if tags.len() == 0 {
        Seq::empty()
    } else {
        seq!['|', '#'] + tag_list(tags)
    }
}

/// An increment by one without its tags: prefix, label, `:1|c`.
pub open spec fn counter_stem(prefix: Seq<char>, label: Seq<char>) -> Seq<char> {
    prefix + label + seq![':', '1', '|', 'c']
}

/// The whole line for an increment by one of `label`, sent through a client
/// with the prefix `prefix`, with the tags `tags`.
pub open spec fn counter_line(prefix: Seq<char>, label: Seq<char>, tags: Seq<TagText>) -> Seq<
    char,
> {
    counter_stem(prefix, label) + tag_suffix(tags)
}

/// The line of an event is its stem, `|#`, the caller's tags with a comma
/// behind each, and last the `version` tag: whatever the caller supplied,
/// the appended tag is there and closes the line.
pub proof fn lemma_line_closes_with_version(
    prefix: Seq<char>,
    label: Seq<char>,
    caller: Seq<TagText>,
)
    ensures
        counter_line(prefix, label, outgoing(caller)) == counter_stem(prefix, label) + seq![
            '|',
            '#',
        ] + (if caller.len() == 0 {
            Seq::<char>::empty()
        } else {
            tag_list(caller) + seq![',']
        }) + tag_text(version_tag()),
{
    let sent = outgoing(caller);
    assert(sent.last() == version_tag());
    assert(sent.drop_last() =~= caller);
    let stem = counter_stem(prefix, label);
    let mark = seq!['|', '#'];
    let last = tag_text(version_tag());
    if caller.len() == 0 {
        assert(sent[0] == version_tag());
        assert(stem + (mark + last) =~= stem + mark + Seq::<char>::empty() + last);
    } else {
        let head = tag_list(caller);
        let comma = seq![','];
        assert(stem + (mark + (head + comma + last)) =~= stem + mark + (head + comma) + last);
    }
}

/// `text` without the full stops at its end.
pub open spec fn without_trailing_dots(text: Seq<char>) -> Seq<char>
    decreases text.len(),
{
    if text.len() > 0 && text.last() == '.' {
        without_trailing_dots(text.drop_last())
    } else {
        text
    }
}

/// The prefix that a client puts before each label when it was made with
/// `label`: nothing for an empty label, else the label with one full stop at
/// its end in place of any it had there.
pub open spec fn formatted_prefix(label: Seq<char>) -> Seq<char> {
    if label.len() == 0 {
        Seq::empty()
    } else {
        without_trailing_dots(label) + seq!['.']
    }
}

} // verus!
