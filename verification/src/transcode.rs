use vstd::prelude::*;
use vstd::string::*;

verus! {

// ---------------------------------------------------------------------------
// The argument vocabulary, as sequences of characters.
// ---------------------------------------------------------------------------

/// Whether an argument is one of the two codec-selection flags whose `copy`
/// form re-wraps a stream without re-encoding it.
pub open spec fn is_codec_flag(a: Seq<char>) -> bool {
    a == "-c:v"@ || a == "-c:a"@
}

/// Whether a codec-copy directive pair (`-c:v copy` or `-c:a copy`) occurs
/// anywhere in an argument sequence.
pub open spec fn has_copy_pair(args: Seq<Seq<char>>) -> bool {
    exists|i: int|
        0 <= i && i + 1 < args.len() && is_codec_flag(args[i]) && args[i + 1] == "copy"@
}

/// The video-filter value that burns a subtitle file into the picture.
pub open spec fn subtitle_filter_value(sub: Seq<char>) -> Seq<char> {
    "subtitles="@ + sub
}

/// Whether an argument has the shape of a subtitle burn-in filter value.
pub open spec fn is_burn_filter_value(a: Seq<char>) -> bool {
    a.len() >= "subtitles="@.len() && a.take("subtitles="@.len() as int) == "subtitles="@
}

/// Whether a subtitle burn-in filter (`-vf subtitles=...`) occurs in an
/// argument sequence.
pub open spec fn has_burn_filter(args: Seq<Seq<char>>) -> bool {
    exists|i: int|
        #![trigger args[i]]
        0 <= i && i + 1 < args.len() && args[i] == "-vf"@ && is_burn_filter_value(args[i + 1])
}

/// The default output side when no preset is given: a direct stream copy for
/// both video and audio.
pub open spec fn default_copy_args() -> Seq<Seq<char>> {
    seq!["-c:v"@, "copy"@, "-c:a"@, "copy"@]
}

/// The argument block that embeds a subtitle file as a soft (selectable,
/// non-burned) track: an additional input, fast-start layout, the text
/// subtitle codec, and the forced-subtitle disposition.
pub open spec fn softmux_args(sub: Seq<char>) -> Seq<Seq<char>> {
    seq![
        "-i"@,
        sub,
        "-movflags"@,
        "faststart"@,
        "-c:s"@,
        "mov_text"@,
        "-disposition:s:s:0"@,
        "forced"@,
    ]
}

/// The argument block that burns a subtitle file into the video picture.
pub open spec fn burn_args(sub: Seq<char>) -> Seq<Seq<char>> {
    seq!["-vf"@, subtitle_filter_value(sub)]
}

// ---------------------------------------------------------------------------
// Presets
// ---------------------------------------------------------------------------

/// A fixed expansion of a user-selected quality preset into input-side and
/// output-side transcoder arguments. An expansion may ask for a partial
/// stream copy (say, re-encode video, copy audio); the burn-in branch of the
/// builder strips such pairs where they cannot stand.
pub struct TranscodePreset {
    pub input_args: Vec<String>,
    pub output_args: Vec<String>,
}

impl TranscodePreset {
    pub fn new(input_args: Vec<String>, output_args: Vec<String>) -> (p: TranscodePreset)
        ensures
            p.input_args == input_args,
            p.output_args == output_args,
    {
        TranscodePreset { input_args, output_args }
    }
}

/// The arguments left when every codec-copy pair is removed, scanning left
/// to right: a pair adjacent in the input disappears, everything else keeps
/// its place and order.
pub open spec fn strip_copy_pairs(args: Seq<Seq<char>>) -> Seq<Seq<char>>
    decreases args.len(),
{
    if args.len() == 0 {
        Seq::empty()
    } else if args.len() >= 2 && is_codec_flag(args[0]) && args[1] == "copy"@ {
        strip_copy_pairs(args.skip(2))
    } else {
        seq![args[0]] + strip_copy_pairs(args.skip(1))
    }
}

/// Content comparison of an argument against a fixed word.
fn string_is(s: &String, t: &str) -> (r: bool)
    ensures
        r == (s@ == t@),
{
    let u = String::from_str(t);
    *s == u
}

/// Whether a codec-copy directive pair occurs in an argument list.
pub fn args_have_copy_pair(args: &Vec<String>) -> (r: bool)
    ensures
        r == has_copy_pair(args.deep_view()),
{
    if args.len() < 2 {
        return false;
    }
    let mut i: usize = 0;
    while i + 1 < args.len()
        invariant
            i + 1 <= args.len(),
            args.deep_view().len() == args@.len(),
            forall|j: int|
                0 <= j < i ==> !(is_codec_flag(args.deep_view()[j]) && args.deep_view()[j + 1]
                    == "copy"@),
        decreases args.len() - i,
    {
        let flag = string_is(&args[i], "-c:v") || string_is(&args[i], "-c:a");
        if flag && string_is(&args[i + 1], "copy") {
            assert(is_codec_flag(args.deep_view()[i as int]) && args.deep_view()[i as int + 1]
                == "copy"@);
            return true;
        }
        i += 1;
    }
    false
}

/// Removes every adjacent codec-copy pair from an argument list, left to
/// right, keeping all other arguments in their order.
pub fn strip_copy_pair_args(args: &Vec<String>) -> (r: Vec<String>)
    ensures
        r.deep_view() == strip_copy_pairs(args.deep_view()),
{
    let ghost full = args.deep_view();
    let mut out: Vec<String> = Vec::new();
    let mut i: usize = 0;
    assert(full.skip(0) =~= full);
    assert(out.deep_view() + strip_copy_pairs(full) =~= strip_copy_pairs(full));
    while i < args.len()
        invariant
            i <= args.len(),
            args.deep_view() == full,
            full.len() == args@.len(),
            strip_copy_pairs(full) == out.deep_view() + strip_copy_pairs(full.skip(i as int)),
        decreases args.len() - i,
    {
        assert(full.skip(i as int)[0] == full[i as int]);
        let pair = i + 1 < args.len() && (string_is(&args[i], "-c:v") || string_is(
            &args[i],
            "-c:a",
        )) && string_is(&args[i + 1], "copy");
        if pair {
            assert(full.skip(i as int)[1] == full[i as int + 1]);
            assert(full.skip(i as int).skip(2) =~= full.skip(i as int + 2));
            i += 2;
        } else {
            let ghost pre = out.deep_view();
            out.push(args[i].clone());
            assert(out.deep_view() =~= pre.push(full[i as int]));
            assert(full.skip(i as int).skip(1) =~= full.skip(i as int + 1));
            assert(strip_copy_pairs(full.skip(i as int)) =~= seq![full[i as int]]
                + strip_copy_pairs(full.skip(i as int + 1)));
            assert(pre + (seq![full[i as int]] + strip_copy_pairs(full.skip(i as int + 1))) =~= (
            pre.push(full[i as int])) + strip_copy_pairs(full.skip(i as int + 1)));
            i += 1;
        }
    }
    assert(full.skip(full.len() as int) =~= Seq::<Seq<char>>::empty());
    assert(out.deep_view() + Seq::<Seq<char>>::empty() =~= out.deep_view());
    out
}

// ---------------------------------------------------------------------------
// Target path inspection
// ---------------------------------------------------------------------------

/// Scans positions `i - 1` down to `0` for the dot that starts an extension;
/// a path separator ends the scan, since an extension belongs to the final
/// path component only.
pub open spec fn dot_scan(path: Seq<char>, i: int) -> Option<int>
    decreases i,
{
    if i <= 0 {
        None
    } else if path[i - 1] == '/' {
        None
    } else if path[i - 1] == '.' {
        Some(i - 1)
    } else {
        dot_scan(path, i - 1)
    }
}

/// The extension of a path: the characters after the last dot of the final
/// component. A component that starts with its only dot (a hidden file) has
/// no extension; a trailing dot yields an empty one.
pub open spec fn spec_extension(path: Seq<char>) -> Option<Seq<char>> {
    match dot_scan(path, path.len() as int) {
        None => None,
        Some(d) => if d == 0 || path[d - 1] == '/' {
            None
        } else {
            Some(path.skip(d + 1))
        },
    }
}

/// Extracts the extension of an output path.
pub fn path_extension(path: &String) -> (r: Option<String>)
    ensures
        match (r, spec_extension(path@)) {
            (Some(e), Some(s)) => e@ == s,
            (None, None) => true,
            _ => false,
        },
{
    let s = path.as_str();
    let n = s.unicode_len();
    let mut i: usize = n;
    while i > 0
        invariant
            i <= n == path@.len(),
            s@ == path@,
            dot_scan(path@, n as int) == dot_scan(path@, i as int),
        decreases i,
    {
        let c = s.get_char(i - 1);
        if c == '/' {
            return None;
        }
        if c == '.' {
            if i - 1 == 0 {
                return None;
            }
            if s.get_char(i - 2) == '/' {
                return None;
            }
            let ext = s.substring_char(i, n);
            assert(ext@ =~= path@.skip(i as int));
            return Some(String::from_str(ext));
        }
        i -= 1;
    }
    None
}

/// Whether the chosen target carries the preferred container extension, under
/// which subtitles can be soft-muxed instead of burned in.
pub open spec fn spec_is_mp4_target(path: Seq<char>) -> bool {
    spec_extension(path) matches Some(e) && e == "mp4"@
}

pub fn target_is_mp4(path: &String) -> (r: bool)
    ensures
        r == spec_is_mp4_target(path@),
{
    match path_extension(path) {
        None => false,
        Some(e) => string_is(&e, "mp4"),
    }
}

/// Whether an output path is the sentinel that stands for the standard output
/// stream.
pub fn is_stdout_target(path: &String) -> (r: bool)
    ensures
        r == (path@ == "-"@),
{
    string_is(path, "-")
}

/// Why an output target is rejected before any network activity begins.
#[derive(Debug, PartialEq, Eq, Structural)]
pub enum TargetError {
    MissingExtension,
}

/// The up-front validity check of the user's output path: either the standard
/// output sentinel, or a path with a non-empty extension.
pub fn validate_output_target(output: &String) -> (r: Result<(), TargetError>)
    ensures
        r is Ok <==> (output@ == "-"@ || (spec_extension(output@) matches Some(e) && e.len() > 0)),
        r is Err ==> r == Result::<(), TargetError>::Err(TargetError::MissingExtension),
{
    if is_stdout_target(output) {
        return Ok(());
    }
    match path_extension(output) {
        None => Err(TargetError::MissingExtension),
        Some(e) => {
            if e.as_str().unicode_len() > 0 {
                Ok(())
            } else {
                Err(TargetError::MissingExtension)
            }
        },
    }
}


// ---------------------------------------------------------------------------
// Building the argument sequence
// ---------------------------------------------------------------------------

/// The input-side arguments: a preset's expansion, or nothing.
pub open spec fn preset_input_args(preset: Option<TranscodePreset>) -> Seq<Seq<char>> {
    match preset {
        Some(p) => p.input_args.deep_view(),
        None => Seq::empty(),
    }
}

/// The codec arguments of the output side: a preset's expansion, or the
/// default direct stream copy.
pub open spec fn preset_output_args_or_copy(preset: Option<TranscodePreset>) -> Seq<Seq<char>> {
    match preset {
        Some(p) => p.output_args.deep_view(),
        None => default_copy_args(),
    }
}

/// The whole output side of the transcoder invocation. With no subtitle,
/// only the codec arguments appear. With one, the preferred container gets
/// the soft-mux block in front of them; any other container gets the burn-in
/// filter instead, and because burning re-encodes, every codec-copy pair is
/// stripped from the codec arguments that follow it.
pub open spec fn spec_output_side(
    preset: Option<TranscodePreset>,
    subtitle: Option<Seq<char>>,
    target: Seq<char>,
) -> Seq<Seq<char>> {
    match subtitle {
        None => preset_output_args_or_copy(preset),
        Some(sub) => if spec_is_mp4_target(target) {
            softmux_args(sub) + preset_output_args_or_copy(preset)
        } else {
            burn_args(sub) + strip_copy_pairs(preset_output_args_or_copy(preset))
        },
    }
}

/// The derived, short-lived plan for one transcoder run: ordered input-side
/// arguments, ordered output-side arguments, and the resolved output path
/// (possibly a temporary file standing in for standard output).
pub struct TranscodeSpec {
    pub input_args: Vec<String>,
    pub output_args: Vec<String>,
    pub target: String,
}

/// What it means for a built plan to be the one the inputs determine.
pub open spec fn spec_matches_build(
    ts: TranscodeSpec,
    preset: Option<TranscodePreset>,
    subtitle: Option<Seq<char>>,
    target: Seq<char>,
) -> bool {
    &&& ts.input_args.deep_view() == preset_input_args(preset)
    &&& ts.output_args.deep_view() == spec_output_side(preset, subtitle, target)
    &&& ts.target@ == target
}

/// Appends clones of all arguments of `src` to `dst`.
fn append_all(dst: &mut Vec<String>, src: &Vec<String>)
    ensures
        final(dst).deep_view() == old(dst).deep_view() + src.deep_view(),
{
    let ghost pre = dst.deep_view();
    let mut i: usize = 0;
    assert(dst.deep_view() =~= pre + src.deep_view().take(0));
    while i < src.len()
        invariant
            i <= src.len(),
            dst.deep_view() == pre + src.deep_view().take(i as int),
        decreases src.len() - i,
    {
        let ghost dv = dst.deep_view();
        dst.push(src[i].clone());
        assert(dst.deep_view() =~= dv.push(src.deep_view()[i as int]));
        assert(src.deep_view().take(i as int + 1) =~= src.deep_view().take(i as int).push(
            src.deep_view()[i as int],
        ));
        i += 1;
    }
    assert(src.deep_view().take(src@.len() as int) =~= src.deep_view());
}

/// Builds the transcoder argument plan for one resolved format: a pure
/// function of the preset, the optional subtitle file and the target path.
pub fn build_transcode_spec(
    preset: &Option<TranscodePreset>,
    subtitle_path: &Option<String>,
    target: String,
) -> (ts: TranscodeSpec)
    ensures
        spec_matches_build(ts, *preset, subtitle_path.deep_view(), target@),
{
    let mut input_args: Vec<String> = Vec::new();
    assert(input_args.deep_view() =~= Seq::<Seq<char>>::empty());
    match preset {
        Some(p) => append_all(&mut input_args, &p.input_args),
        None => {},
    }
    assert(input_args.deep_view() =~= preset_input_args(*preset));
    let mut output_args: Vec<String> = Vec::new();
    assert(output_args.deep_view() =~= Seq::<Seq<char>>::empty());
    match subtitle_path {
        None => {
            match preset {
                Some(p) => append_all(&mut output_args, &p.output_args),
                None => push_default_copy(&mut output_args),
            }
            assert(output_args.deep_view() =~= preset_output_args_or_copy(*preset));
        },
        Some(sub) => {
            if target_is_mp4(&target) {
                output_args.push(String::from_str("-i"));
                output_args.push(sub.clone());
                output_args.push(String::from_str("-movflags"));
                output_args.push(String::from_str("faststart"));
                output_args.push(String::from_str("-c:s"));
                output_args.push(String::from_str("mov_text"));
                output_args.push(String::from_str("-disposition:s:s:0"));
                output_args.push(String::from_str("forced"));
                assert(output_args.deep_view() =~= softmux_args(sub@));
                let ghost mid = output_args.deep_view();
                match preset {
                    Some(p) => append_all(&mut output_args, &p.output_args),
                    None => push_default_copy(&mut output_args),
                }
                assert(output_args.deep_view() == mid + preset_output_args_or_copy(*preset));
            } else {
                output_args.push(String::from_str("-vf"));
                output_args.push(String::from_str("subtitles=").concat(sub.as_str()));
                assert(output_args.deep_view() =~= burn_args(sub@));
                let ghost mid = output_args.deep_view();
                let mut base: Vec<String> = Vec::new();
                assert(base.deep_view() =~= Seq::<Seq<char>>::empty());
                match preset {
                    Some(p) => append_all(&mut base, &p.output_args),
                    None => push_default_copy(&mut base),
                }
                assert(base.deep_view() =~= preset_output_args_or_copy(*preset));
                let stripped = strip_copy_pair_args(&base);
                append_all(&mut output_args, &stripped);
                assert(output_args.deep_view() =~= mid + strip_copy_pairs(
                    preset_output_args_or_copy(*preset),
                ));
            }
        },
    }
    TranscodeSpec { input_args, output_args, target }
}

/// Appends the default copy-codec pair for video and audio.
fn push_default_copy(dst: &mut Vec<String>)
    ensures
        final(dst).deep_view() == old(dst).deep_view() + default_copy_args(),
{
    let ghost pre = dst.deep_view();
    dst.push(String::from_str("-c:v"));
    dst.push(String::from_str("copy"));
    dst.push(String::from_str("-c:a"));
    dst.push(String::from_str("copy"));
    assert(dst.deep_view() =~= pre + default_copy_args());
}

/// The exact ordered argument sequence handed to the external transcoder:
/// global overwrite flag, input-side preset arguments, primary media input,
/// then the whole output side, then the target path.
pub open spec fn spec_command_args(
    input: Seq<Seq<char>>,
    output: Seq<Seq<char>>,
    video_input: Seq<char>,
    target: Seq<char>,
) -> Seq<Seq<char>> {
    seq!["-y"@] + input + seq!["-i"@, video_input] + output + seq![target]
}

/// Assembles the final argument list for one invocation.
pub fn transcoder_command_args(ts: &TranscodeSpec, video_input: &String) -> (args: Vec<String>)
    ensures
        args.deep_view() == spec_command_args(
            ts.input_args.deep_view(),
            ts.output_args.deep_view(),
            video_input@,
            ts.target@,
        ),
{
    let mut args: Vec<String> = Vec::new();
    args.push(String::from_str("-y"));
    assert(args.deep_view() =~= seq!["-y"@]);
    append_all(&mut args, &ts.input_args);
    let ghost head = args.deep_view();
    args.push(String::from_str("-i"));
    args.push(video_input.clone());
    assert(args.deep_view() =~= head + seq!["-i"@, video_input@]);
    append_all(&mut args, &ts.output_args);
    let ghost body = args.deep_view();
    args.push(ts.target.clone());
    assert(args.deep_view() =~= body + seq![ts.target@]);
    assert(args.deep_view() =~= spec_command_args(
        ts.input_args.deep_view(),
        ts.output_args.deep_view(),
        video_input@,
        ts.target@,
    ));
    args
}

// ---------------------------------------------------------------------------
// Laws of the argument builder
// ---------------------------------------------------------------------------

/// The burn block's filter value has the burn-filter shape.
pub proof fn lemma_burn_value_shape(sub: Seq<char>)
    ensures
        is_burn_filter_value(subtitle_filter_value(sub)),
{
    reveal_strlit("subtitles=");
    assert(subtitle_filter_value(sub).take("subtitles="@.len() as int) =~= "subtitles="@);
}

/// Building from the same inputs determines the same argument sequences: the
/// plan is a pure function of preset, subtitle and target.
pub proof fn lemma_build_deterministic(
    a: TranscodeSpec,
    b: TranscodeSpec,
    preset: Option<TranscodePreset>,
    subtitle: Option<Seq<char>>,
    target: Seq<char>,
)
    requires
        spec_matches_build(a, preset, subtitle, target),
        spec_matches_build(b, preset, subtitle, target),
    ensures
        a.input_args.deep_view() == b.input_args.deep_view(),
        a.output_args.deep_view() == b.output_args.deep_view(),
        a.target@ == b.target@,
{
}

/// With no subtitle selected and no preset requested, the output side is
/// exactly the default direct-copy pair for video and audio.
pub proof fn lemma_no_subtitle_defaults_to_copy(target: Seq<char>)
    ensures
        spec_output_side(Option::<TranscodePreset>::None, Option::<Seq<char>>::None, target)
            == default_copy_args(),
{
}

/// Stripping the no-preset default leaves nothing: burning a subtitle with
/// no preset requested means a full re-encode with no codec arguments.
pub proof fn lemma_strip_default_is_empty()
    ensures
        strip_copy_pairs(default_copy_args()) == Seq::<Seq<char>>::empty(),
{
    let d = default_copy_args();
    assert(d.skip(2) =~= seq!["-c:a"@, "copy"@]);
    assert(d.skip(2).skip(2) =~= Seq::<Seq<char>>::empty());
    assert(strip_copy_pairs(d.skip(2).skip(2)) == Seq::<Seq<char>>::empty());
    assert(strip_copy_pairs(d.skip(2)) == Seq::<Seq<char>>::empty());
}

/// A preset that carries no codec-copy pair passes the burn-in stripping
/// unchanged: all other flags are preserved in their original order.
pub proof fn lemma_strip_clean_is_identity(args: Seq<Seq<char>>)
    requires
        !has_copy_pair(args),
    ensures
        strip_copy_pairs(args) == args,
    decreases args.len(),
{
    if args.len() > 0 {
        if args.len() >= 2 && is_codec_flag(args[0]) && args[1] == "copy"@ {
            assert(0 <= 0int && 0int + 1 < args.len() && is_codec_flag(args[0int]) && args[0int + 1] == "copy"@);
            assert(false);
        }
        assert(!has_copy_pair(args.skip(1))) by {
            if has_copy_pair(args.skip(1)) {
                let i = choose|i: int|
                    0 <= i && i + 1 < args.skip(1).len() && is_codec_flag(args.skip(1)[i])
                        && args.skip(1)[i + 1] == "copy"@;
                assert(args.skip(1)[i] == args[i + 1]);
                assert(args.skip(1)[i + 1] == args[i + 2]);
                assert(is_codec_flag(args[i + 1]) && args[i + 1 + 1] == "copy"@);
                assert(false);
            }
        }
        lemma_strip_clean_is_identity(args.skip(1));
        assert(seq![args[0]] + args.skip(1) =~= args);
    }
}

/// A non-preferred container with a subtitle really does get the burn-in
/// filter: the mutual-exclusion law below is not vacuous.
pub proof fn lemma_burn_case_has_filter(
    preset: Option<TranscodePreset>,
    sub: Seq<char>,
    target: Seq<char>,
)
    requires
        !spec_is_mp4_target(target),
    ensures
        has_burn_filter(spec_output_side(preset, Some(sub), target)),
{
    let out = spec_output_side(preset, Some(sub), target);
    assert(out[0] == "-vf"@);
    assert(out[1] == subtitle_filter_value(sub));
    lemma_burn_value_shape(sub);
}

/// A subtitle burn-in filter and a codec-copy directive pair never share an
/// output side: burning re-encodes, and a copy request would contradict it.
/// The two conditions on a supplied preset name exactly the expansions on
/// which the single-pass stripping rule cannot keep the promise: one whose
/// flags themselves carry a burn-in filter, and one whose copy pairs overlap
/// so that stripping leaves a pair behind.
pub proof fn lemma_burn_in_excludes_copy(
    preset: Option<TranscodePreset>,
    subtitle: Option<Seq<char>>,
    target: Seq<char>,
)
    requires
        preset matches Some(p) ==> !has_burn_filter(p.output_args.deep_view()),
        preset matches Some(p) ==> !has_copy_pair(strip_copy_pairs(p.output_args.deep_view())),
    ensures
        ({
            let out = spec_output_side(preset, subtitle, target);
            has_burn_filter(out) ==> !has_copy_pair(out)
        }),
{
    reveal_strlit("-c:v");
    reveal_strlit("-c:a");
    reveal_strlit("-c:s");
    reveal_strlit("copy");
    reveal_strlit("-vf");
    reveal_strlit("-i");
    reveal_strlit("-movflags");
    reveal_strlit("faststart");
    reveal_strlit("mov_text");
    reveal_strlit("-disposition:s:s:0");
    reveal_strlit("forced");
    reveal_strlit("subtitles=");
    assert("-c:v"@.len() == 4 && "-c:a"@.len() == 4 && "copy"@.len() == 4);
    assert("-vf"@.len() == 3 && "-i"@.len() == 2 && "-c:s"@.len() == 4);
    assert("-movflags"@.len() == 9 && "faststart"@.len() == 9 && "mov_text"@.len() == 8);
    assert("-disposition:s:s:0"@.len() == 18 && "forced"@.len() == 6);
    assert("subtitles="@.len() == 10);
    assert("-c:s"@[3] == 's' && "-c:v"@[3] == 'v' && "-c:a"@[3] == 'a');
    assert("-c:s"@ != "-c:v"@ && "-c:s"@ != "-c:a"@);
    let out = spec_output_side(preset, subtitle, target);
    match subtitle {
        None => {
            // The output side is the preset's own flags or the default copy
            // pair; neither holds a burn-in filter.
            match preset {
                Some(p) => {
                    assert(!has_burn_filter(out));
                },
                None => {
                    if has_burn_filter(out) {
                        let i = choose|i: int|
                            #![trigger out[i]]
                            0 <= i && i + 1 < out.len() && out[i] == "-vf"@ && is_burn_filter_value(
                                out[i + 1],
                            );
                        assert(out.len() == 4);
                        assert(out[i].len() == 4);
                        assert(false);
                    }
                },
            }
        },
        Some(sub) => {
            if spec_is_mp4_target(target) {
                // Soft-mux: the copy pair may stay, so no burn-in filter may
                // appear; none of the block's arguments has the filter shape,
                // and the preset's flags carry none by assumption.
                if has_burn_filter(out) {
                    let i = choose|i: int|
                        #![trigger out[i]]
                        0 <= i && i + 1 < out.len() && out[i] == "-vf"@ && is_burn_filter_value(
                            out[i + 1],
                        );
                    match preset {
                        Some(p) => {
                            if i >= 8 {
                                assert(out[i] == p.output_args.deep_view()[i - 8]);
                                assert(out[i + 1] == p.output_args.deep_view()[i - 7]);
                                assert(has_burn_filter(p.output_args.deep_view()));
                            } else if i == 1 {
                                assert(out[2] == "-movflags"@);
                                assert(out[2].len() < "subtitles="@.len());
                                assert(!is_burn_filter_value(out[2]));
                            } else {
                                assert(out[i].len() != "-vf"@.len());
                            }
                        },
                        None => {
                            assert(out.len() == 12);
                            if i == 1 {
                                assert(out[2] == "-movflags"@);
                                assert(out[2].len() < "subtitles="@.len());
                                assert(!is_burn_filter_value(out[2]));
                            } else {
                                assert(out[i].len() != "-vf"@.len());
                            }
                        },
                    }
                    assert(false);
                }
            } else {
                // Burn-in: the stripped codec arguments follow the filter
                // block, and stripping left no pair by assumption.
                let rest = strip_copy_pairs(preset_output_args_or_copy(preset));
                if preset is None {
                    lemma_strip_default_is_empty();
                }
                if has_copy_pair(out) {
                    let i = choose|i: int|
                        0 <= i && i + 1 < out.len() && is_codec_flag(out[i]) && out[i + 1]
                            == "copy"@;
                    if i == 0 {
                        assert(out[0] == "-vf"@);
                        assert(out[0].len() == 3);
                        assert(false);
                    } else if i == 1 {
                        assert(out[1] == subtitle_filter_value(sub));
                        assert(out[1].len() >= "subtitles="@.len());
                        assert(false);
                    } else {
                        assert(out[i] == rest[i - 2]);
                        assert(out[i + 1] == rest[i - 1]);
                        assert(has_copy_pair(rest));
                        assert(false);
                    }
                }
            }
        },
    }
}

} // verus!
