//! What a configuration file means, stated apart from how it is read.
use crate::codec::Codec;
use crate::config::{ChunkSpec, FieldSpec};
use crate::config_file::{ChunkEntry, ConfigFileV1, FieldEntry, VideoEntry};
use crate::dtype::DType;
use vstd::prelude::*;

verus! {

// ---------------------------------------------------------------------------
// Names
// ---------------------------------------------------------------------------

/// Whether two characters are the same but for the case of an ASCII letter.
pub open spec fn same_letter(x: char, y: char) -> bool {
    ||| x == y
    ||| 65 <= x as u32 <= 90 && y as u32 == x as u32 + 32
    ||| 65 <= y as u32 <= 90 && x as u32 == y as u32 + 32
}

/// Whether two texts are the same but for the case of ASCII letters.
pub open spec fn same_but_for_case(a: Seq<char>, b: Seq<char>) -> bool {
    &&& a.len() == b.len()
    &&& forall|i: int| 0 <= i < a.len() ==> same_letter(#[trigger] a[i], b[i])
}

proof fn lemma_small_is_without_case(a: Seq<char>, b: Seq<char>)
    ensures
        same_but_for_case(a, b) <==> crate::config_file::small(a) == crate::config_file::small(b),
{
    let sa = crate::config_file::small(a);
    let sb = crate::config_file::small(b);
    if same_but_for_case(a, b) {
        assert forall|i: int| 0 <= i < sa.len() implies sa[i] == sb[i] by {
            assert(same_letter(a[i], b[i]));
        }
        assert(sa =~= sb);
    }
    if sa == sb {
        assert(sa.len() == a.len() && sb.len() == b.len());
        assert forall|i: int| 0 <= i < a.len() implies same_letter(#[trigger] a[i], b[i]) by {
            assert(sa[i] == sb[i]);
            assert(sa[i] == crate::config_file::ascii_small(a[i]));
            assert(sb[i] == crate::config_file::ascii_small(b[i]));
        }
    }
}

/// The small form of a type's name.
spec fn small_name(d: DType) -> Seq<char> {
    match d {
        DType::F64 => "f64"@,
        DType::F32 => "f32"@,
        DType::I32 => "i32"@,
        DType::I16 => "i16"@,
        DType::I8 => "i8"@,
        DType::U32 => "u32"@,
        DType::U16 => "u16"@,
        DType::U8 => "u8"@,
        DType::Bool => "bool"@,
    }
}

proof fn lemma_small_names(d: DType)
    ensures
        crate::config_file::small(d.name()) == small_name(d),
{
    reveal_strlit("f64");
    reveal_strlit("f32");
    reveal_strlit("i32");
    reveal_strlit("i16");
    reveal_strlit("i8");
    reveal_strlit("u32");
    reveal_strlit("u16");
    reveal_strlit("u8");
    reveal_strlit("bool");
    reveal_strlit("F64");
    reveal_strlit("F32");
    reveal_strlit("I32");
    reveal_strlit("I16");
    reveal_strlit("I8");
    reveal_strlit("U32");
    reveal_strlit("U16");
    reveal_strlit("U8");
    reveal_strlit("Bool");
    assert(crate::config_file::small(d.name()) =~= small_name(d));
}

proof fn lemma_small_names_differ(d: DType, e: DType)
    ensures
        small_name(d) == small_name(e) <==> d == e,
{
    reveal_strlit("f64");
    reveal_strlit("f32");
    reveal_strlit("i32");
    reveal_strlit("i16");
    reveal_strlit("i8");
    reveal_strlit("u32");
    reveal_strlit("u16");
    reveal_strlit("u8");
    reveal_strlit("bool");
    if d != e {
        assert(small_name(d).len() != small_name(e).len() || small_name(d)[0] != small_name(e)[0]
            || small_name(d)[1] != small_name(e)[1]);
    }
}

/// A name in a file stands for a type exactly where it is the type's own name
/// in capitals or not. So no two types share a name, and a name that is none
/// of theirs stands for nothing.
pub proof fn law_type_names_agree_both_ways(name: Seq<char>, d: DType)
    ensures
        crate::config_file::named_dtype(name) == Some(d) <==> same_but_for_case(name, d.name()),
        crate::config_file::named_dtype(crate::config_file::small(d.name())) == Some(d),
        crate::config_file::named_dtype(d.name()) == Some(d),
{
    lemma_type_name(name, d);
    lemma_type_name(d.name(), d);
    lemma_type_name(crate::config_file::small(d.name()), d);
    let s = crate::config_file::small(d.name());
    assert(s =~= crate::config_file::small(s));
    lemma_small_is_without_case(s, d.name());
}

proof fn lemma_type_name(name: Seq<char>, d: DType)
    ensures
        crate::config_file::named_dtype(name) == Some(d) <==> same_but_for_case(name, d.name()),
{
    lemma_small_is_without_case(name, d.name());
    lemma_small_names(d);
    lemma_small_names_differ(d, DType::F64);
    lemma_small_names_differ(d, DType::F32);
    lemma_small_names_differ(d, DType::I32);
    lemma_small_names_differ(d, DType::I16);
    lemma_small_names_differ(d, DType::I8);
    lemma_small_names_differ(d, DType::U32);
    lemma_small_names_differ(d, DType::U16);
    lemma_small_names_differ(d, DType::U8);
    lemma_small_names_differ(d, DType::Bool);
}

/// The nine names of types are read in capitals or not.
pub proof fn law_nine_types_have_names(name: Seq<char>)
    ensures
        crate::config_file::named_dtype(name) == Some(DType::F64) <==> same_but_for_case(
            name,
            "F64"@,
        ),
        crate::config_file::named_dtype(name) == Some(DType::F32) <==> same_but_for_case(
            name,
            "F32"@,
        ),
        crate::config_file::named_dtype(name) == Some(DType::I32) <==> same_but_for_case(
            name,
            "I32"@,
        ),
        crate::config_file::named_dtype(name) == Some(DType::I16) <==> same_but_for_case(
            name,
            "I16"@,
        ),
        crate::config_file::named_dtype(name) == Some(DType::I8) <==> same_but_for_case(
            name,
            "I8"@,
        ),
        crate::config_file::named_dtype(name) == Some(DType::U32) <==> same_but_for_case(
            name,
            "U32"@,
        ),
        crate::config_file::named_dtype(name) == Some(DType::U16) <==> same_but_for_case(
            name,
            "U16"@,
        ),
        crate::config_file::named_dtype(name) == Some(DType::U8) <==> same_but_for_case(
            name,
            "U8"@,
        ),
        crate::config_file::named_dtype(name) == Some(DType::Bool) <==> same_but_for_case(
            name,
            "Bool"@,
        ),
{
    lemma_type_name(name, DType::F64);
    lemma_type_name(name, DType::F32);
    lemma_type_name(name, DType::I32);
    lemma_type_name(name, DType::I16);
    lemma_type_name(name, DType::I8);
    lemma_type_name(name, DType::U32);
    lemma_type_name(name, DType::U16);
    lemma_type_name(name, DType::U8);
    lemma_type_name(name, DType::Bool);
}

/// No two of the names of types are the same, not even but for their case.
pub proof fn law_types_have_names_of_their_own(d: DType, e: DType)
    requires
        same_but_for_case(d.name(), e.name()),
    ensures
        d == e,
{
    lemma_type_name(d.name(), d);
    lemma_type_name(d.name(), e);
    lemma_small_is_without_case(d.name(), d.name());
}

/// A name in a file stands for a codec exactly where it is that codec's name
/// in capitals or not.
pub proof fn law_codec_names_agree_both_ways(name: Seq<char>)
    ensures
        crate::config_file::named_codec(name) == Some(Codec::H264) <==> same_but_for_case(
            name,
            "H264"@,
        ),
        crate::config_file::named_codec(name) == Some(Codec::Raw) <==> same_but_for_case(
            name,
            "Raw"@,
        ),
        crate::config_file::named_codec(name) == Some(Codec::Png) <==> same_but_for_case(
            name,
            "Png"@,
        ),
        crate::config_file::named_codec(name) == Some(Codec::Mjpeg) <==> same_but_for_case(
            name,
            "Mjpeg"@,
        ),
        crate::config_file::named_codec(name) matches Some(c) ==> c == Codec::H264 || c
            == Codec::Raw || c == Codec::Png || c == Codec::Mjpeg,
{
    lemma_small_is_without_case(name, "H264"@);
    lemma_small_is_without_case(name, "Raw"@);
    lemma_small_is_without_case(name, "Png"@);
    lemma_small_is_without_case(name, "Mjpeg"@);
    reveal_strlit("h264");
    reveal_strlit("raw");
    reveal_strlit("png");
    reveal_strlit("mjpeg");
    reveal_strlit("H264");
    reveal_strlit("Raw");
    reveal_strlit("Png");
    reveal_strlit("Mjpeg");
    assert(crate::config_file::small("H264"@) =~= "h264"@);
    assert(crate::config_file::small("Raw"@) =~= "raw"@);
    assert(crate::config_file::small("Png"@) =~= "png"@);
    assert(crate::config_file::small("Mjpeg"@) =~= "mjpeg"@);
    assert("raw"@[0] != "png"@[0]);
}

// ---------------------------------------------------------------------------
// Validation
// ---------------------------------------------------------------------------

/// Whether no two tracks share a name.
pub open spec fn tracks_named_apart(videos: Seq<VideoEntry>) -> bool {
    forall|i: int, j: int|
        0 <= i < j < videos.len() ==> (#[trigger] videos[i]).name@ != (#[trigger] videos[j]).name@
}

/// Whether every Motion JPEG track that asks for a quality asks for one
/// between 1 and 100.
pub open spec fn qualities_in_range(videos: Seq<VideoEntry>) -> bool {
    forall|i: int|
        0 <= i < videos.len() && (#[trigger] videos[i]).codec == Codec::Mjpeg && videos[i].quality
            is Some ==> 1 <= videos[i].quality->0 <= 100
}

/// Whether no two chunks share a name.
pub open spec fn chunks_named_apart(chunks: Seq<ChunkEntry>) -> bool {
    forall|i: int, j: int|
        0 <= i < j < chunks.len() ==> (#[trigger] chunks[i]).name@ != (#[trigger] chunks[j]).name@
}

proof fn lemma_no_video_problem(videos: Seq<VideoEntry>, from: int)
    requires
        0 <= from <= videos.len(),
    ensures
        crate::config_file::videos_problem(videos, from) is None <==> forall|i: int|
            from <= i < videos.len() ==> (#[trigger] crate::config_file::video_problem(
                videos,
                i,
            )) is None,
    decreases videos.len() - from,
{
    if from < videos.len() {
        lemma_no_video_problem(videos, from + 1);
        if crate::config_file::videos_problem(videos, from) is None {
            assert forall|i: int| from <= i < videos.len() implies (
            #[trigger] crate::config_file::video_problem(videos, i)) is None by {
                if i == from {
                    assert(crate::config_file::video_problem(videos, from) is None);
                }
            }
        }
    }
}

proof fn lemma_no_chunk_problem(chunks: Seq<ChunkEntry>, from: int)
    requires
        0 <= from <= chunks.len(),
    ensures
        crate::config_file::chunks_problem(chunks, from) is None <==> forall|i: int|
            from <= i < chunks.len() ==> (#[trigger] crate::config_file::chunk_problem(
                chunks,
                i,
            )) is None,
    decreases chunks.len() - from,
{
    if from < chunks.len() {
        lemma_no_chunk_problem(chunks, from + 1);
        if crate::config_file::chunks_problem(chunks, from) is None {
            assert forall|i: int| from <= i < chunks.len() implies (
            #[trigger] crate::config_file::chunk_problem(chunks, i)) is None by {
                if i == from {
                    assert(crate::config_file::chunk_problem(chunks, from) is None);
                }
            }
        }
    }
}

proof fn lemma_videos_are_fine(videos: Seq<VideoEntry>)
    ensures
        crate::config_file::videos_problem(videos, 0) is None <==> tracks_named_apart(videos)
            && qualities_in_range(videos),
{
    lemma_no_video_problem(videos, 0);
    if crate::config_file::videos_problem(videos, 0) is None {
        assert forall|i: int, j: int| 0 <= i < j < videos.len() implies (
        #[trigger] videos[i]).name@ != (#[trigger] videos[j]).name@ by {
            assert(crate::config_file::video_problem(videos, j) is None);
        }
        assert forall|i: int|
            0 <= i < videos.len() && (#[trigger] videos[i]).codec == Codec::Mjpeg
                && videos[i].quality is Some implies 1 <= videos[i].quality->0 <= 100 by {
            assert(crate::config_file::video_problem(videos, i) is None);
        }
    }
    if tracks_named_apart(videos) && qualities_in_range(videos) {
        assert forall|i: int| 0 <= i < videos.len() implies (
        #[trigger] crate::config_file::video_problem(videos, i)) is None by {
            assert(videos[i].codec == Codec::Mjpeg ==> 1 <= crate::config_file::quality_of(
                videos[i],
            ) <= 100);
        }
    }
}

proof fn lemma_chunks_are_fine(chunks: Seq<ChunkEntry>)
    ensures
        crate::config_file::chunks_problem(chunks, 0) is None <==> chunks_named_apart(chunks)
            && forall|i: int| 0 <= i < chunks.len() ==> (#[trigger] chunks[i]).horizon > 0,
{
    lemma_no_chunk_problem(chunks, 0);
    if crate::config_file::chunks_problem(chunks, 0) is None {
        assert forall|i: int, j: int| 0 <= i < j < chunks.len() implies (
        #[trigger] chunks[i]).name@ != (#[trigger] chunks[j]).name@ by {
            assert(crate::config_file::chunk_problem(chunks, j) is None);
        }
        assert forall|i: int| 0 <= i < chunks.len() implies (#[trigger] chunks[i]).horizon
            > 0 by {
            assert(crate::config_file::chunk_problem(chunks, i) is None);
        }
    }
}

/// A file is accepted exactly where no two tracks share a name, no Motion
/// JPEG track asks for a quality outside 1 to 100, the frame rate, the slack
/// and the tolerance are above zero where they are given, no two chunks share
/// a name and every chunk has a horizon.
pub proof fn law_what_a_file_may_ask_for(file: ConfigFileV1)
    ensures
        crate::config_file::problem(file) is None <==> {
            &&& tracks_named_apart(file.videos@)
            &&& qualities_in_range(file.videos@)
            &&& file.fps != Some(0u32)
            &&& file.slack != Some(0u32)
            &&& file.tolerance matches Some(bits) ==> 0 < bits <= 0x7f80_0000
            &&& chunks_named_apart(file.action_chunks@)
            &&& forall|i: int|
                0 <= i < file.action_chunks@.len() ==> (#[trigger] file.action_chunks@[i]).horizon
                    > 0
        },
{
    lemma_videos_are_fine(file.videos@);
    lemma_chunks_are_fine(file.action_chunks@);
}

proof fn lemma_first_video_problem(videos: Seq<VideoEntry>, from: int, i: int)
    requires
        0 <= from <= i < videos.len(),
        forall|j: int|
            from <= j < i ==> (#[trigger] crate::config_file::video_problem(videos, j)) is None,
        crate::config_file::video_problem(videos, i) is Some,
    ensures
        crate::config_file::videos_problem(videos, from) == crate::config_file::video_problem(
            videos,
            i,
        ),
    decreases i - from,
{
    if from < i {
        assert(crate::config_file::video_problem(videos, from) is None);
        lemma_first_video_problem(videos, from + 1, i);
    }
}

/// Of the tracks the first faulty one is told, by its name: that it repeats
/// one, or else the quality that it asks for.
pub proof fn law_the_first_faulty_track_is_told(file: ConfigFileV1, i: int)
    requires
        0 <= i < file.videos@.len(),
        tracks_named_apart(file.videos@.take(i)),
        qualities_in_range(file.videos@.take(i)),
    ensures
        !tracks_named_apart(file.videos@.take(i + 1)) ==> crate::config_file::problem(file)
            == Some("duplicate video track '"@ + file.videos@[i].name@ + "'"@),
        tracks_named_apart(file.videos@.take(i + 1)) && file.videos@[i].codec == Codec::Mjpeg
            && file.videos@[i].quality is Some && !(1 <= file.videos@[i].quality->0 <= 100)
            ==> crate::config_file::problem(file) == Some(
            "video '"@ + file.videos@[i].name@ + "': mjpeg quality must be in 1..=100, got "@
                + crate::text::decimal(file.videos@[i].quality->0 as nat),
        ),
{
    let videos = file.videos@;
    assert forall|j: int| 0 <= j < i implies (#[trigger] crate::config_file::video_problem(
        videos,
        j,
    )) is None by {
        let front = videos.take(i);
        assert(front[j] == videos[j]);
        if crate::config_file::video_repeats(videos, j) {
            let k = choose|k: int| 0 <= k < j && (#[trigger] videos[k]).name@ == videos[j].name@;
            assert(front[k] == videos[k]);
            assert(front[k].name@ != front[j].name@);
        }
    }
    let more = videos.take(i + 1);
    assert(more[i] == videos[i]);
    if !tracks_named_apart(more) {
        let (a, b) = choose|a: int, b: int|
            0 <= a < b < more.len() && (#[trigger] more[a]).name@ == (#[trigger] more[b]).name@;
        let front = videos.take(i);
        if b < i {
            assert(front[a] == more[a] && front[b] == more[b]);
            assert(front[a].name@ != front[b].name@);
        }
        assert(b == i);
        assert(videos[a].name@ == videos[i].name@);
        assert(crate::config_file::video_repeats(videos, i));
        lemma_first_video_problem(videos, 0, i);
    } else {
        if crate::config_file::video_repeats(videos, i) {
            let k = choose|k: int| 0 <= k < i && (#[trigger] videos[k]).name@ == videos[i].name@;
            assert(more[k] == videos[k]);
            assert(more[k].name@ != more[i].name@);
        }
        if crate::config_file::video_problem(videos, i) is Some {
            lemma_first_video_problem(videos, 0, i);
        }
    }
}

proof fn lemma_first_chunk_problem(chunks: Seq<ChunkEntry>, from: int, i: int)
    requires
        0 <= from <= i < chunks.len(),
        forall|j: int|
            from <= j < i ==> (#[trigger] crate::config_file::chunk_problem(chunks, j)) is None,
        crate::config_file::chunk_problem(chunks, i) is Some,
    ensures
        crate::config_file::chunks_problem(chunks, from) == crate::config_file::chunk_problem(
            chunks,
            i,
        ),
    decreases i - from,
{
    if from < i {
        assert(crate::config_file::chunk_problem(chunks, from) is None);
        lemma_first_chunk_problem(chunks, from + 1, i);
    }
}

/// Behind the tracks, a frame rate, a slack and a tolerance that are not above
/// zero are told in this order.
pub proof fn law_rates_are_told_behind_the_tracks(file: ConfigFileV1)
    requires
        tracks_named_apart(file.videos@),
        qualities_in_range(file.videos@),
    ensures
        file.fps == Some(0u32) ==> crate::config_file::problem(file) == Some(
            "fps must be > 0"@,
        ),
        file.fps != Some(0u32) && file.slack == Some(0u32) ==> crate::config_file::problem(file)
            == Some("slack must be > 0"@),
        file.fps != Some(0u32) && file.slack != Some(0u32) && file.tolerance is Some && !(0
            < file.tolerance->0 <= 0x7f80_0000) ==> crate::config_file::problem(file) == Some(
            "tolerance must be > 0"@,
        ),
{
    lemma_videos_are_fine(file.videos@);
}

/// Behind the rates the first faulty chunk is told, by its name: that it
/// repeats one, or else that it has no horizon.
pub proof fn law_the_first_faulty_chunk_is_told(file: ConfigFileV1, i: int)
    requires
        tracks_named_apart(file.videos@),
        qualities_in_range(file.videos@),
        file.fps != Some(0u32),
        file.slack != Some(0u32),
        file.tolerance matches Some(bits) ==> 0 < bits <= 0x7f80_0000,
        0 <= i < file.action_chunks@.len(),
        chunks_named_apart(file.action_chunks@.take(i)),
        forall|j: int| 0 <= j < i ==> (#[trigger] file.action_chunks@[j]).horizon > 0,
    ensures
        !chunks_named_apart(file.action_chunks@.take(i + 1)) ==> crate::config_file::problem(file)
            == Some("duplicate action chunk '"@ + file.action_chunks@[i].name@ + "'"@),
        chunks_named_apart(file.action_chunks@.take(i + 1)) && file.action_chunks@[i].horizon == 0
            ==> crate::config_file::problem(file) == Some(
            "action chunk '"@ + file.action_chunks@[i].name@ + "' horizon must be > 0"@,
        ),
{
    lemma_videos_are_fine(file.videos@);
    let chunks = file.action_chunks@;
    assert forall|j: int| 0 <= j < i implies (#[trigger] crate::config_file::chunk_problem(
        chunks,
        j,
    )) is None by {
        let front = chunks.take(i);
        assert(front[j] == chunks[j]);
        assert(chunks[j].horizon > 0);
        if crate::config_file::chunk_repeats(chunks, j) {
            let k = choose|k: int| 0 <= k < j && (#[trigger] chunks[k]).name@ == chunks[j].name@;
            assert(front[k] == chunks[k]);
            assert(front[k].name@ != front[j].name@);
        }
    }
    let more = chunks.take(i + 1);
    assert(more[i] == chunks[i]);
    if !chunks_named_apart(more) {
        let (a, b) = choose|a: int, b: int|
            0 <= a < b < more.len() && (#[trigger] more[a]).name@ == (#[trigger] more[b]).name@;
        let front = chunks.take(i);
        if b < i {
            assert(front[a] == more[a] && front[b] == more[b]);
            assert(front[a].name@ != front[b].name@);
        }
        assert(b == i);
        assert(chunks[a].name@ == chunks[i].name@);
        assert(crate::config_file::chunk_repeats(chunks, i));
        lemma_first_chunk_problem(chunks, 0, i);
    } else {
        if crate::config_file::chunk_repeats(chunks, i) {
            let k = choose|k: int| 0 <= k < i && (#[trigger] chunks[k]).name@ == chunks[i].name@;
            assert(more[k] == chunks[k]);
            assert(more[k].name@ != more[i].name@);
        }
        if crate::config_file::chunk_problem(chunks, i) is Some {
            lemma_first_chunk_problem(chunks, 0, i);
        }
    }
}

// ---------------------------------------------------------------------------
// Declarations
// ---------------------------------------------------------------------------

proof fn lemma_media_tracks_grow(videos: Seq<VideoEntry>, i: nat, n: nat)
    requires
        i <= n <= videos.len(),
    ensures
        crate::config_file::media_tracks(videos, i).len() <= crate::config_file::media_tracks(
            videos,
            n,
        ).len(),
        forall|k: int|
            0 <= k < crate::config_file::media_tracks(videos, i).len() ==> (
            #[trigger] crate::config_file::media_tracks(videos, n)[k])
                == crate::config_file::media_tracks(videos, i)[k],
        crate::config_file::stream_tracks(videos, i).len() <= crate::config_file::stream_tracks(
            videos,
            n,
        ).len(),
        forall|k: int|
            0 <= k < crate::config_file::stream_tracks(videos, i).len() ==> (
            #[trigger] crate::config_file::stream_tracks(videos, n)[k])
                == crate::config_file::stream_tracks(videos, i)[k],
    decreases n - i,
{
    if i < n {
        lemma_media_tracks_grow(videos, i, (n - 1) as nat);
        assert forall|k: int|
            0 <= k < crate::config_file::media_tracks(videos, i).len() implies (
        #[trigger] crate::config_file::media_tracks(videos, n)[k])
            == crate::config_file::media_tracks(videos, i)[k] by {
            assert(crate::config_file::media_tracks(videos, (n - 1) as nat)[k]
                == crate::config_file::media_tracks(videos, i)[k]);
        }
        assert forall|k: int|
            0 <= k < crate::config_file::stream_tracks(videos, i).len() implies (
        #[trigger] crate::config_file::stream_tracks(videos, n)[k])
            == crate::config_file::stream_tracks(videos, i)[k] by {
            assert(crate::config_file::stream_tracks(videos, (n - 1) as nat)[k]
                == crate::config_file::stream_tracks(videos, i)[k]);
        }
    }
}

/// Every track of a file is declared once, in the order of the file: a raw,
/// PNG or Motion JPEG track as a byte stream, with the quality that the file
/// gives or the default one, any other as a plain WebRTC track; nothing else
/// is declared.
pub proof fn law_every_track_is_declared(videos: Seq<VideoEntry>, n: nat, i: int)
    requires
        n <= videos.len(),
        0 <= i < n,
    ensures
        ({
            let media = crate::config_file::media_tracks(videos, n);
            let streams = crate::config_file::stream_tracks(videos, n);
            let media_before = crate::config_file::media_tracks(videos, i as nat).len() as int;
            let streams_before = crate::config_file::stream_tracks(videos, i as nat).len() as int;
            let v = videos[i];
            &&& media.len() + streams.len() == n
            &&& media_before + streams_before == i
            &&& v.codec == Codec::Raw || v.codec == Codec::Png || v.codec == Codec::Mjpeg ==> {
                &&& streams_before < streams.len()
                &&& streams[streams_before].name == v.name
                &&& streams[streams_before].codec == v.codec
                &&& v.quality is Some ==> streams[streams_before].quality == v.quality->0
                &&& v.quality is None && v.codec == Codec::Mjpeg
                    ==> streams[streams_before].quality == 90
                &&& v.quality is None && v.codec != Codec::Mjpeg
                    ==> streams[streams_before].quality == 0
            }
            &&& v.codec != Codec::Raw && v.codec != Codec::Png && v.codec != Codec::Mjpeg ==> {
                &&& media_before < media.len()
                &&& media[media_before].name == v.name
                &&& media[media_before].codec == v.codec
                &&& media[media_before].max_bitrate_kbps is None
                &&& !media[media_before].simulcast
                &&& !media[media_before].screencast
            }
        }),
{
    lemma_tracks_are_counted(videos, n);
    lemma_tracks_are_counted(videos, i as nat);
    lemma_media_tracks_grow(videos, (i + 1) as nat, n);
    let k = crate::config_file::media_tracks(videos, i as nat).len() as int;
    let l = crate::config_file::stream_tracks(videos, i as nat).len() as int;
    assert(crate::config_file::media_tracks(videos, (i + 1) as nat).len() > k
        ==> crate::config_file::media_tracks(videos, n)[k]
        == crate::config_file::media_tracks(videos, (i + 1) as nat)[k]);
    assert(crate::config_file::stream_tracks(videos, (i + 1) as nat).len() > l
        ==> crate::config_file::stream_tracks(videos, n)[l]
        == crate::config_file::stream_tracks(videos, (i + 1) as nat)[l]);
}

proof fn lemma_tracks_are_counted(videos: Seq<VideoEntry>, n: nat)
    ensures
        crate::config_file::media_tracks(videos, n).len() + crate::config_file::stream_tracks(
            videos,
            n,
        ).len() == n,
    decreases n,
{
    if n > 0 {
        lemma_tracks_are_counted(videos, (n - 1) as nat);
    }
}

/// A schema declares the fields of the file in their order, each with its
/// name and its type; so does a chunk, with its own name and horizon.
pub proof fn law_fields_are_declared_as_written(
    fields: Seq<FieldEntry>,
    declared: ChunkSpec,
    entry: ChunkEntry,
    i: int,
)
    requires
        crate::config_file::chunk_matches(declared, entry),
        0 <= i,
    ensures
        crate::config_file::schema_of(fields).len() == fields.len(),
        i < fields.len() ==> {
            let f: FieldSpec = crate::config_file::schema_of(fields)[i];
            f.name == fields[i].name && f.dtype == fields[i].dtype
        },
        declared.name == entry.name,
        declared.horizon == entry.horizon,
        declared.fields@.len() == entry.fields@.len(),
        i < entry.fields@.len() ==> declared.fields@[i].name == entry.fields@[i].name
            && declared.fields@[i].dtype == entry.fields@[i].dtype,
{
}

} // verus!
