//! How content is sent, and what a file is by its name.

use crate::category;
use crate::content;
use crate::content::{KindView, SendContent, StepView};
use crate::json::JsonView;
use crate::json_laws;
use crate::text;
use crate::text_laws;
use crate::types::UploadResult;
use vstd::prelude::*;

verus! {

/// The caption of an image, a video or a file.
pub open spec fn caption_of(content: SendContent) -> Option<String> {
    match content {
        SendContent::Text(_) => None,
        SendContent::Image { caption, .. } => caption,
        SendContent::Video { caption, .. } => caption,
        SendContent::File { caption, .. } => caption,
    }
}

/// A caption is sent once, as it is, and before the item; where there is none, no text is sent.
/// Text is sent as it is, and nothing else with it.
pub proof fn law_captions_are_sent(content: SendContent)
    ensures
        ({
            let steps = content::plan_steps(content);
            &&& content is Text ==> steps == seq![StepView::Text(content->Text_0@)]
            &&& !(content is Text) && caption_of(content) is None ==> forall|i: int|
                0 <= i < steps.len() ==> !((#[trigger] steps[i]) is Text)
            &&& !(content is Text) && caption_of(content) is Some ==> exists|at: int|
                {
                    &&& 0 <= at < steps.len() - 1
                    &&& #[trigger] steps[at] == StepView::Text(caption_of(content)->0@)
                    &&& steps.last() is Item
                    &&& forall|i: int|
                        0 <= i < steps.len() && (#[trigger] steps[i]) is Text ==> i == at
                }
        }),
{
    let steps = content::plan_steps(content);
    if !(content is Text) && caption_of(content) is Some {
        if steps[0] is Text {
            assert(steps[0] == StepView::Text(caption_of(content)->0@));
        } else {
            assert(steps[1] == StepView::Text(caption_of(content)->0@));
        }
    }
}

/// Data is put on the CDN once, before the item and nothing after the item: as type 1 where the item
/// is an image, 2 where it is a video and 3 where it is a file. An image and a video are put there
/// before their caption is sent, a file after that.
pub proof fn law_data_is_uploaded_as_what_it_is(content: SendContent)
    requires
        !(content is Text),
    ensures
        ({
            let steps = content::plan_steps(content);
            let kind = content::plan_kind(content);
            let captions: int = if caption_of(content) is Some {
                1
            } else {
                0
            };
            &&& steps.len() == 2 + captions
            &&& steps.last() is Item
            &&& kind is Some
            &&& kind->0 is Image ==> steps[0] == StepView::Upload(1)
            &&& kind->0 is Video ==> steps[0] == StepView::Upload(2)
            &&& kind->0 is File ==> steps[captions] == StepView::Upload(3)
        }),
{
}

/// An image is an image and a video a video; a file is what its name says, and goes by its name
/// where it is neither. The data is the data that was given.
pub proof fn law_content_is_what_it_is(content: SendContent)
    ensures
        content is Text ==> content::plan_kind(content) is None && content::plan_data(content).len()
            == 0,
        content matches SendContent::Image { data, .. } ==> content::plan_kind(content) == Some(
            KindView::Image,
        ) && content::plan_data(content) == data@,
        content matches SendContent::Video { data, .. } ==> content::plan_kind(content) == Some(
            KindView::Video,
        ) && content::plan_data(content) == data@,
        content matches SendContent::File { data, file_name, .. } ==> {
            let named = category::category(file_name@);
            &&& content::plan_data(content) == data@
            &&& named == "image"@ ==> content::plan_kind(content) == Some(KindView::Image)
            &&& named == "video"@ ==> content::plan_kind(content) == Some(KindView::Video)
            &&& named == "file"@ ==> content::plan_kind(content) == Some(KindView::File(file_name@))
        },
{
    reveal_strlit("image");
    reveal_strlit("video");
    reveal_strlit("file");
    assert("image"@[0] == 'i' && "video"@[0] == 'v' && "file"@[0] == 'f');
}

/// Whether `s` is `word`, written in small or in capital letters. The Kelvin sign is a capital `k`.
pub open spec fn is_spelled(s: Seq<char>, word: Seq<char>) -> bool {
    &&& s.len() == word.len()
    &&& forall|i: int|
        0 <= i < s.len() ==> #[trigger] s[i] == word[i] || (s[i] as u32 + 32 == word[i] as u32
            && 'A' <= s[i] <= 'Z') || (s[i] == '\u{212A}' && word[i] == 'k')
}

/// The part behind the last slash is the last part.
proof fn lemma_last_part(dir: Seq<char>, name: Seq<char>)
    requires
        !name.contains('/'),
        dir.len() == 0 || dir.last() == '/',
    ensures
        text::split(dir + name, '/').len() > 0,
        text::split(dir + name, '/').last() == name,
{
    text_laws::lemma_split_one(name, '/');
    if dir.len() > 0 {
        text_laws::lemma_split_add(dir.drop_last(), name, '/');
        assert(dir.drop_last() + seq!['/'] + name =~= dir + name);
    } else {
        assert(dir + name =~= name);
    }
}

proof fn lemma_last_dot(stem: Seq<char>, ext: Seq<char>)
    requires
        !ext.contains('.'),
    ensures
        category::last_dot(stem + seq!['.'] + ext) == Some(stem.len() as int),
    decreases ext.len(),
{
    let name = stem + seq!['.'] + ext;
    if ext.len() > 0 {
        assert(ext[ext.len() - 1] != '.');
        let init = ext.drop_last();
        assert forall|i: int| 0 <= i < init.len() implies init[i] != '.' by {
            assert(ext[i] == init[i]);
        }
        lemma_last_dot(stem, init);
        assert(name.drop_last() =~= stem + seq!['.'] + init);
    }
}

proof fn lemma_no_dot(name: Seq<char>)
    requires
        !name.contains('.'),
    ensures
        category::last_dot(name) is None,
    decreases name.len(),
{
    if name.len() > 0 {
        assert(name[name.len() - 1] != '.');
        let init = name.drop_last();
        assert forall|i: int| 0 <= i < init.len() implies init[i] != '.' by {
            assert(name[i] == init[i]);
        }
        lemma_no_dot(init);
    }
}

proof fn lemma_spelled(s: Seq<char>, word: Seq<char>)
    requires
        forall|i: int| 0 <= i < word.len() ==> ('a' <= #[trigger] word[i] <= 'z' || '0' <= word[i] <= '9'),
    ensures
        is_spelled(s, word) <==> category::lowered(s) == word,
{
    let low = category::lowered(s);
    if is_spelled(s, word) {
        assert forall|i: int| 0 <= i < s.len() implies low[i] == word[i] by {
            assert('a' <= word[i] <= 'z' || '0' <= word[i] <= '9');
            assert(s[i] == word[i] || (s[i] as u32 + 32 == word[i] as u32 && 'A' <= s[i] <= 'Z') || (
            s[i] == '\u{212A}' && word[i] == 'k'));
        }
        assert(low =~= word);
    }
    if low == word {
        assert forall|i: int| 0 <= i < s.len() implies #[trigger] s[i] == word[i] || (s[i] as u32 + 32
            == word[i] as u32 && 'A' <= s[i] <= 'Z') || (s[i] == '\u{212A}' && word[i] == 'k') by {
            assert(low[i] == category::lower(s[i]));
        }
    }
}

/// A file is what the letters behind the last dot of its name say, be they small or capital: an
/// image, a video, or else just a file. Where it lies does not matter.
pub proof fn law_a_name_says_what_a_file_is(dir: Seq<char>, stem: Seq<char>, ext: Seq<char>)
    requires
        dir.len() == 0 || dir.last() == '/',
        stem.len() > 0,
        !stem.contains('/'),
        !ext.contains('/'),
        !ext.contains('.'),
        ext.len() > 0,
    ensures
        ({
            let named = category::category(dir + (stem + seq!['.'] + ext));
            let image = is_spelled(ext, "png"@) || is_spelled(ext, "jpg"@) || is_spelled(
                ext,
                "jpeg"@,
            ) || is_spelled(ext, "gif"@) || is_spelled(ext, "webp"@) || is_spelled(ext, "bmp"@)
                || is_spelled(ext, "svg"@);
            let video = is_spelled(ext, "mp4"@) || is_spelled(ext, "mov"@) || is_spelled(
                ext,
                "webm"@,
            ) || is_spelled(ext, "mkv"@) || is_spelled(ext, "avi"@);
            &&& image ==> named == "image"@
            &&& video ==> named == "video"@
            &&& !image && !video ==> named == "file"@
        }),
{
    let name = stem + seq!['.'] + ext;
    let path = dir + name;
    assert(!name.contains('/')) by {
        if name.contains('/') {
            let i = choose|i: int| 0 <= i < name.len() && name[i] == '/';
            if i < stem.len() {
                assert(stem[i] == '/');
            } else if i > stem.len() {
                assert(ext[i - stem.len() - 1] == '/');
            }
        }
    }
    lemma_last_part(dir, name);
    reveal_strlit(".");
    reveal_strlit("..");
    assert(name.len() >= 3);
    lemma_last_dot(stem, ext);
    assert(name.skip(stem.len() as int + 1) =~= ext);
    assert(category::extension(path) == ext);
    lemma_words();
    lemma_spelled(ext, "png"@);
    lemma_spelled(ext, "jpg"@);
    lemma_spelled(ext, "jpeg"@);
    lemma_spelled(ext, "gif"@);
    lemma_spelled(ext, "webp"@);
    lemma_spelled(ext, "bmp"@);
    lemma_spelled(ext, "svg"@);
    lemma_spelled(ext, "mp4"@);
    lemma_spelled(ext, "mov"@);
    lemma_spelled(ext, "webm"@);
    lemma_spelled(ext, "mkv"@);
    lemma_spelled(ext, "avi"@);
    lemma_videos_are_no_images();
}

pub open spec fn is_written_small(word: Seq<char>) -> bool {
    forall|i: int| 0 <= i < word.len() ==> ('a' <= #[trigger] word[i] <= 'z' || '0' <= word[i] <= '9')
}

proof fn lemma_words()
    ensures
        is_written_small("png"@),
        is_written_small("jpg"@),
        is_written_small("jpeg"@),
        is_written_small("gif"@),
        is_written_small("webp"@),
        is_written_small("bmp"@),
        is_written_small("svg"@),
        is_written_small("mp4"@),
        is_written_small("mov"@),
        is_written_small("webm"@),
        is_written_small("mkv"@),
        is_written_small("avi"@),
{
    reveal_strlit("png");
    reveal_strlit("jpg");
    reveal_strlit("jpeg");
    reveal_strlit("gif");
    reveal_strlit("webp");
    reveal_strlit("bmp");
    reveal_strlit("svg");
    reveal_strlit("mp4");
    reveal_strlit("mov");
    reveal_strlit("webm");
    reveal_strlit("mkv");
    reveal_strlit("avi");
}

proof fn lemma_videos_are_no_images()
    ensures
        forall|s: Seq<char>|
            category::is_video_extension(s) ==> !#[trigger] category::is_image_extension(s),
{
    reveal_strlit("png");
    reveal_strlit("jpg");
    reveal_strlit("jpeg");
    reveal_strlit("gif");
    reveal_strlit("webp");
    reveal_strlit("bmp");
    reveal_strlit("svg");
    reveal_strlit("mp4");
    reveal_strlit("mov");
    reveal_strlit("webm");
    reveal_strlit("mkv");
    reveal_strlit("avi");
    assert("webp"@[3] == 'p' && "webm"@[3] == 'm');
    assert("png"@[0] == 'p' && "jpg"@[0] == 'j' && "gif"@[0] == 'g' && "bmp"@[0] == 'b' && "svg"@[0]
        == 's');
    assert("mp4"@[0] == 'm' && "mov"@[0] == 'm' && "mkv"@[0] == 'm' && "avi"@[0] == 'a');
    assert("jpeg"@[0] == 'j' && "webm"@[0] == 'w');
}

/// A name without a dot, or with none but in front, says nothing: it is a file.
pub proof fn law_a_name_without_extension_is_a_file(dir: Seq<char>, name: Seq<char>)
    requires
        dir.len() == 0 || dir.last() == '/',
        name.len() > 0,
        !name.contains('/'),
        !name.contains('.'),
    ensures
        category::category(dir + name) == "file"@,
        category::category(dir + (seq!['.'] + name)) == "file"@,
{
    lemma_last_part(dir, name);
    lemma_no_dot(name);
    reveal_strlit(".");
    reveal_strlit("..");
    assert(name[0] != '.');
    assert(category::extension(dir + name) == Seq::<char>::empty());
    let hidden = seq!['.'] + name;
    assert(!hidden.contains('/')) by {
        if hidden.contains('/') {
            let i = choose|i: int| 0 <= i < hidden.len() && hidden[i] == '/';
            assert(name[i - 1] == '/');
        }
    }
    lemma_last_part(dir, hidden);
    lemma_last_dot(Seq::empty(), name);
    assert(Seq::<char>::empty() + seq!['.'] + name =~= hidden);
    assert(hidden[1] != '.');
    assert(category::extension(dir + hidden) == Seq::<char>::empty());
    assert(category::lowered(Seq::empty()).len() == 0);
    lemma_lengths();
}

proof fn lemma_lengths()
    ensures
        !category::is_image_extension(category::lowered(Seq::empty())),
        !category::is_video_extension(category::lowered(Seq::empty())),
{
    reveal_strlit("png");
    reveal_strlit("jpg");
    reveal_strlit("jpeg");
    reveal_strlit("gif");
    reveal_strlit("webp");
    reveal_strlit("bmp");
    reveal_strlit("svg");
    reveal_strlit("mp4");
    reveal_strlit("mov");
    reveal_strlit("webm");
    reveal_strlit("mkv");
    reveal_strlit("avi");
    assert(category::lowered(Seq::empty()).len() == 0);
}

proof fn lemma_item_keys()
    ensures
        "type"@.len() == 4,
        "image_item"@.len() == 10,
        "video_item"@.len() == 10,
        "file_item"@.len() == 9,
        "media"@.len() == 5,
        "mid_size"@.len() == 8,
        "video_size"@.len() == 10,
        "file_name"@.len() == 9,
        "len"@.len() == 3,
{
    reveal_strlit("type");
    reveal_strlit("image_item");
    reveal_strlit("video_item");
    reveal_strlit("file_item");
    reveal_strlit("media");
    reveal_strlit("mid_size");
    reveal_strlit("video_size");
    reveal_strlit("file_name");
    reveal_strlit("len");
}

/// An item says what kind it is of and refers to the data on the CDN: an image and a video with the
/// size of what lies there, a file with its name and the length of the data as it was given.
pub proof fn law_items_refer_to_the_data(kind: KindView, upload: UploadResult, data_len: nat)
    ensures
        ({
            let item = content::media_item(kind, upload, data_len);
            let media = crate::messages::cdn_media(upload.media);
            let size = JsonView::Integer(upload.encrypted_file_size as int);
            &&& json_laws::has_fields(item, 2)
            &&& kind is Image ==> json_laws::has(item, "type"@, JsonView::Integer(2)) && exists|inner: JsonView|
                #![trigger json_laws::has_fields(inner, 2)]
                json_laws::has(item, "image_item"@, inner) && json_laws::has_fields(inner, 2) && json_laws::has(
                    inner,
                    "media"@,
                    media,
                ) && json_laws::has(inner, "mid_size"@, size)
            &&& kind is Video ==> json_laws::has(item, "type"@, JsonView::Integer(5)) && exists|inner: JsonView|
                #![trigger json_laws::has_fields(inner, 2)]
                json_laws::has(item, "video_item"@, inner) && json_laws::has_fields(inner, 2) && json_laws::has(
                    inner,
                    "media"@,
                    media,
                ) && json_laws::has(inner, "video_size"@, size)
            &&& kind matches KindView::File(name) ==> json_laws::has(item, "type"@, JsonView::Integer(4))
                && exists|inner: JsonView|
                #![trigger json_laws::has_fields(inner, 3)]
                json_laws::has(item, "file_item"@, inner) && json_laws::has_fields(inner, 3) && json_laws::has(
                    inner,
                    "media"@,
                    media,
                ) && json_laws::has(inner, "file_name"@, JsonView::Text(name)) && json_laws::has(
                    inner,
                    "len"@,
                    JsonView::Text(crate::decimal::decimal(data_len)),
                )
        }),
{
    lemma_item_keys();
    let item = content::media_item(kind, upload, data_len);
    let fields = item->Object_0;
    let inner = fields[1].1;
    assert(fields.contains(fields[0]) && fields.contains(fields[1]));
    let parts = inner->Object_0;
    assert(parts.contains(parts[0]) && parts.contains(parts[1]));
    if kind is File {
        assert(parts.contains(parts[2]));
        assert(json_laws::has_fields(inner, 3));
    } else {
        assert(json_laws::has_fields(inner, 2));
    }
}

} // verus!
