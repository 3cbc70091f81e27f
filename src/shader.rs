use vstd::prelude::*;

use crate::text::{
    chars_of, find_char, index_of, lemma_index_of_bounds, matches_literal, push_char, push_chars,
    sub_chars, trim, trim_bounds,
};

verus! {

/// The version pragma every processed stage starts with.
pub const VERSION_NUMBER: &'static str = "#version 450";

pub const FEATURE_CAMERA_VIEW_UNIFORM_NAME: &'static str = "_u_view";

pub const FEATURE_CAMERA_PROJECTION_UNIFORM_NAME: &'static str = "_u_projection";

pub const FEATURE_TRANSFORM_UNIFORM_NAME: &'static str = "_u_transform";

/// Code that the `camera` feature puts in front of a stage.
pub const CAMERA_CODE: &'static str = "
uniform mat4 _u_view;
mat4 applyView(mat4 a) {
    return _u_view * a;
}

vec4 applyView(vec4 a) {
    return _u_view * a;
}

vec3 camForward() {
    return -vec3(_u_view[0].z, _u_view[1].z, _u_view[2].z);
}

vec3 camRight() {
    return vec3(_u_view[0].x, _u_view[1].x, _u_view[2].x);
}

vec3 camUp() {
    return -vec3(_u_view[0].y, _u_view[1].y, _u_view[2].y);
}

vec3 camPosition() {
    return -vec3(_u_view[0].w, _u_view[1].w, _u_view[2].w);
}

uniform mat4 _u_projection;
mat4 applyProjection(mat4 a) {
    return _u_projection * a;
}

vec4 applyProjection(vec4 a) {
    return _u_projection * a;
}";

/// Code that the `transform` feature puts in front of a stage.
pub const TRANSFORM_CODE: &'static str = "
uniform mat4 _u_transform;
mat4 applyTransform(mat4 a) {
    return _u_transform * a;
}";

/// Code that the `noise` feature puts in front of a stage.
pub const NOISE_CODE: &'static str = "
vec3 randomNormal(vec3 pos) {
    return normalize(vec3(
        cos(pos.x * 2981.2412512 + sin(pos.y * 239.21585190 + cos(pos.z * 923.9287664) * 976.56895432) * 4574.9856189),
        cos(pos.y * 8145.32161212 + sin(pos.z * 177.1658568 + cos(pos.x * 743.126898) * 7569.142156) * 4123.4584516),
        cos(pos.z * 6354.862316 + sin(pos.x * 445.96213 + cos(pos.y * 512.458127845) * 4123.841261) * 865.622312)
    ));
}

vec3 cellPos(vec3 pos) {
    return vec3(floor(pos.x), floor(pos.y), floor(pos.z));
}

float cellIntensity(vec3 pos, vec3 cellOffset) {
    vec3 cell = cellPos(pos) + cellOffset;
    vec3 normal = randomNormal(cell);
    float directionIntensity = (dot(pos - cell, normal) + 1.0) / 2.0;
    float distanceIntensity = max(0.0, 1.0 - pow(length(pos - cell), 0.95));
    return directionIntensity * distanceIntensity;
}

float sigmoid(float x) {
    return 1.0 / (1.0 + exp(x * -15 + 7.5));
}

float sampleNoise(vec3 sample_pos, float seed, float scale, int iterations) {
    float sum = 0.0;
    float divider = 0.0;
    for (int i = 0; i < iterations; i++) {
        float power = 1.0 / pow(1.4, i);
        sample_pos += seed * 0.5;
        float pos_scale = scale * pow(2.0, i);
        vec3 pos = sample_pos * pos_scale;
        sum +=
            (cellIntensity(pos, vec3(-1.0, -1.0, -1.0)) +
            cellIntensity(pos, vec3(-1.0, -1.0, 0.0)) +
            cellIntensity(pos, vec3(-1.0, -1.0, 1.0)) +
            cellIntensity(pos, vec3(-1.0, 0.0, -1.0)) +
            cellIntensity(pos, vec3(-1.0, 0.0, 0.0)) +
            cellIntensity(pos, vec3(-1.0, 0.0, 1.0)) +
            cellIntensity(pos, vec3(-1.0, 1.0, -1.0)) +
            cellIntensity(pos, vec3(-1.0, 1.0, 0.0)) +
            cellIntensity(pos, vec3(-1.0, 1.0, 1.0)) +
            cellIntensity(pos, vec3(0.0, -1.0, -1.0)) +
            cellIntensity(pos, vec3(0.0, -1.0, 0.0)) +
            cellIntensity(pos, vec3(0.0, -1.0, 1.0)) +
            cellIntensity(pos, vec3(0.0, 0.0, -1.0)) +
            cellIntensity(pos, vec3(0.0, 0.0, 0.0)) +
            cellIntensity(pos, vec3(0.0, 0.0, 1.0)) +
            cellIntensity(pos, vec3(0.0, 1.0, -1.0)) +
            cellIntensity(pos, vec3(0.0, 1.0, 0.0)) +
            cellIntensity(pos, vec3(0.0, 1.0, 1.0)) +
            cellIntensity(pos, vec3(1.0, -1.0, -1.0)) +
            cellIntensity(pos, vec3(1.0, -1.0, 0.0)) +
            cellIntensity(pos, vec3(1.0, -1.0, 1.0)) +
            cellIntensity(pos, vec3(1.0, 0.0, -1.0)) +
            cellIntensity(pos, vec3(1.0, 0.0, 0.0)) +
            cellIntensity(pos, vec3(1.0, 0.0, 1.0)) +
            cellIntensity(pos, vec3(1.0, 1.0, -1.0)) +
            cellIntensity(pos, vec3(1.0, 1.0, 0.0)) +
            cellIntensity(pos, vec3(1.0, 1.0, 1.0))) * power;
        divider += power;
    }
    return sigmoid(sum / divider);
}";

/// A named capability a stage opts into with `#[feature(...)]`.
#[derive(Clone, Copy, PartialEq, Eq, Structural, Hash, Debug)]
pub enum ShaderFeature {
    Camera,
    Transform,
    Noise,
}

/// Why a stage's source was refused.
#[derive(Clone, Copy, PartialEq, Eq, Structural, Hash, Debug)]
pub enum ShaderError {
    /// A `#[...]` marker is not of the form `#[feature(arg, ...)]`.
    UnknownDirective,
    /// A `feature` argument names no known feature.
    UnknownFeature,
}

/// The feature a (trimmed) name stands for.
pub open spec fn feature_named(name: Seq<char>) -> Option<ShaderFeature> {
    if name == "camera"@ {
        Some(ShaderFeature::Camera)
    } else if name == "transform"@ {
        Some(ShaderFeature::Transform)
    } else if name == "noise"@ {
        Some(ShaderFeature::Noise)
    } else {
        None
    }
}

pub open spec fn feature_code(f: ShaderFeature) -> Seq<char> {
    match f {
        ShaderFeature::Camera => CAMERA_CODE@,
        ShaderFeature::Transform => TRANSFORM_CODE@,
        ShaderFeature::Noise => NOISE_CODE@,
    }
}

impl ShaderFeature {
    /// The feature called `name`, white space around it aside.
    pub fn from_name(name: &str) -> (r: Option<ShaderFeature>)
        ensures
            r == feature_named(trim(name@)),
    {
        let chars = chars_of(name);
        assert(chars@.subrange(0, chars@.len() as int) == name@);
        feature_from_chars(&chars, 0, chars.len())
    }

    /// The declarations and helpers the feature puts in front of a stage.
    pub fn inserted_code(self) -> (r: &'static str)
        ensures
            r@ == feature_code(self),
    {
        match self {
            ShaderFeature::Camera => CAMERA_CODE,
            ShaderFeature::Transform => TRANSFORM_CODE,
            ShaderFeature::Noise => NOISE_CODE,
        }
    }
}

/// The feature named by `s[from..to]`, white space around it aside.
fn feature_from_chars(s: &Vec<char>, from: usize, to: usize) -> (r: Option<ShaderFeature>)
    requires
        from <= to <= s@.len(),
    ensures
        r == feature_named(trim(s@.subrange(from as int, to as int))),
{
    let (a, b) = trim_bounds(s, from, to);
    if matches_literal(s, a, b, "camera") {
        Some(ShaderFeature::Camera)
    } else if matches_literal(s, a, b, "transform") {
        Some(ShaderFeature::Transform)
    } else if matches_literal(s, a, b, "noise") {
        Some(ShaderFeature::Noise)
    } else {
        None
    }
}

// ----- the text of a stage -----

/// `s` with every `c` taken out.
pub open spec fn without_char(s: Seq<char>, c: char) -> Seq<char>
    decreases s.len(),
{
    if s.len() == 0 {
        s
    } else if s.last() == c {
        without_char(s.drop_last(), c)
    } else {
        without_char(s.drop_last(), c).push(s.last())
    }
}

/// `s` with the occurrences of `pat` taken out, found left to right without overlap.
pub open spec fn without_pattern(s: Seq<char>, pat: Seq<char>) -> Seq<char>
    decreases s.len(),
{
    if pat.len() == 0 || s.len() < pat.len() {
        s
    } else if s.take(pat.len() as int) == pat {
        without_pattern(s.skip(pat.len() as int), pat)
    } else {
        seq![s[0]] + without_pattern(s.skip(1), pat)
    }
}

/// Index of the first `]` at or after `from`, or -1 where a line break or the
/// end of the text comes first.
pub open spec fn closing_bracket(s: Seq<char>, from: int) -> int
    decreases s.len() - from,
{
    if from < 0 || from >= s.len() {
        -1
    } else if s[from] == ']' {
        from
    } else if s[from] == '\n' {
        -1
    } else {
        closing_bracket(s, from + 1)
    }
}

/// Index of the `]` closing a marker `#[...]` that starts at `i`, or -1.
pub open spec fn marker_end(s: Seq<char>, i: int) -> int {
    if 0 <= i && i + 1 < s.len() && s[i] == '#' && s[i + 1] == '[' {
        closing_bracket(s, i + 2)
    } else {
        -1
    }
}

/// The text from `i` on with its markers taken out; markers are found left to
/// right, each ending at the first `]` on its line.
pub open spec fn text_from(s: Seq<char>, i: int) -> Seq<char>
    decreases s.len() - i,
{
    if i < 0 || i >= s.len() {
        Seq::empty()
    } else if i < marker_end(s, i) < s.len() {
        text_from(s, marker_end(s, i) + 1)
    } else {
        seq![s[i]] + text_from(s, i + 1)
    }
}

/// The markers in the text from `i` on, each with its `#[` and `]`.
pub open spec fn markers_from(s: Seq<char>, i: int) -> Seq<Seq<char>>
    decreases s.len() - i,
{
    if i < 0 || i >= s.len() {
        Seq::empty()
    } else if i < marker_end(s, i) < s.len() {
        seq![s.subrange(i, marker_end(s, i) + 1)] + markers_from(s, marker_end(s, i) + 1)
    } else {
        markers_from(s, i + 1)
    }
}

/// The pieces of `s` between its commas, empty ones included.
pub open spec fn split_commas(s: Seq<char>) -> Seq<Seq<char>>
    decreases s.len(),
{
    if s.len() == 0 {
        seq![Seq::empty()]
    } else {
        let r = split_commas(s.drop_last());
        if s.last() == ',' {
            r.push(Seq::empty())
        } else {
            r.update(r.len() - 1, r.last().push(s.last()))
        }
    }
}

/// The arguments of a marker `#[name(args)]` whose trimmed name is `feature`,
/// split at commas; `None` for any other marker.
pub open spec fn marker_args(d: Seq<char>) -> Option<Seq<Seq<char>>> {
    let p = index_of(d, '(', 2);
    let q = index_of(d, ')', p + 1);
    if p < 0 || q < 0 || trim(d.subrange(2, p)) != "feature"@ {
        None
    } else {
        Some(split_commas(d.subrange(p + 1, q)))
    }
}

/// The arguments of every marker, or `None` if one is not a `feature` marker.
pub open spec fn all_marker_args(ds: Seq<Seq<char>>) -> Option<Seq<Seq<Seq<char>>>>
    decreases ds.len(),
{
    if ds.len() == 0 {
        Some(Seq::empty())
    } else {
        match (all_marker_args(ds.drop_last()), marker_args(ds.last())) {
            (Some(rest), Some(a)) => Some(rest.push(a)),
            _ => None,
        }
    }
}

/// The features that trimmed names stand for, or `None` if one is unknown.
pub open spec fn features_named(names: Seq<Seq<char>>) -> Option<Seq<ShaderFeature>>
    decreases names.len(),
{
    if names.len() == 0 {
        Some(Seq::empty())
    } else {
        match (features_named(names.drop_last()), feature_named(trim(names.last()))) {
            (Some(rest), Some(f)) => Some(rest.push(f)),
            _ => None,
        }
    }
}

pub open spec fn all_features(argss: Seq<Seq<Seq<char>>>) -> Option<Seq<Seq<ShaderFeature>>>
    decreases argss.len(),
{
    if argss.len() == 0 {
        Some(Seq::empty())
    } else {
        match (all_features(argss.drop_last()), features_named(argss.last())) {
            (Some(rest), Some(fs)) => Some(rest.push(fs)),
            _ => None,
        }
    }
}

/// The features of all markers, in order.
pub open spec fn concat_features(fss: Seq<Seq<ShaderFeature>>) -> Seq<ShaderFeature>
    decreases fss.len(),
{
    if fss.len() == 0 {
        Seq::empty()
    } else {
        concat_features(fss.drop_last()) + fss.last()
    }
}

/// The code of one marker's features, each followed by a line break.
pub open spec fn feature_block(fs: Seq<ShaderFeature>) -> Seq<char>
    decreases fs.len(),
{
    if fs.len() == 0 {
        Seq::empty()
    } else {
        feature_block(fs.drop_last()) + feature_code(fs.last()) + seq!['\n']
    }
}

/// The blocks of all markers, the last marker's first.
pub open spec fn inserted_code(fss: Seq<Seq<ShaderFeature>>) -> Seq<char>
    decreases fss.len(),
{
    if fss.len() == 0 {
        Seq::empty()
    } else {
        feature_block(fss.last()) + inserted_code(fss.drop_last())
    }
}

/// The source without carriage returns and version pragmas.
pub open spec fn stripped(code: Seq<char>) -> Seq<char> {
    without_pattern(without_char(code, '\r'), VERSION_NUMBER@)
}

/// What a stage's source becomes: the version pragma, an empty line, the
/// code of the declared features and the source without its markers; beside
/// it the declared features in order.
pub open spec fn preprocessed(code: Seq<char>) -> Result<(Seq<char>, Seq<ShaderFeature>), ShaderError> {
    let s = stripped(code);
    match all_marker_args(markers_from(s, 0)) {
        None => Err(ShaderError::UnknownDirective),
        Some(argss) => match all_features(argss) {
            None => Err(ShaderError::UnknownFeature),
            Some(fss) => Ok(
                (
                    VERSION_NUMBER@ + seq!['\n', '\n'] + inserted_code(fss) + text_from(s, 0),
                    concat_features(fss),
                ),
            ),
        },
    }
}

// ----- executable preprocessing -----

pub open spec fn char_views(vs: Seq<Vec<char>>) -> Seq<Seq<char>> {
    vs.map_values(|v: Vec<char>| v@)
}

pub open spec fn feature_views(vs: Seq<Vec<ShaderFeature>>) -> Seq<Seq<ShaderFeature>> {
    vs.map_values(|v: Vec<ShaderFeature>| v@)
}

fn strip_char(s: &Vec<char>, c: char) -> (r: Vec<char>)
    ensures
        r@ == without_char(s@, c),
{
    let mut out: Vec<char> = Vec::new();
    let mut i: usize = 0;
    while i < s.len()
        invariant
            i <= s@.len(),
            out@ == without_char(s@.take(i as int), c),
        decreases s@.len() - i,
    {
        proof {
            assert(s@.take(i + 1).drop_last() == s@.take(i as int));
        }
        if s[i] != c {
            out.push(s[i]);
        }
        i = i + 1;
    }
    proof {
        assert(s@.take(i as int) == s@);
    }
    out
}

/// Whether `pat` occurs in `s` at `i`.
fn occurs_at(s: &Vec<char>, i: usize, pat: &Vec<char>) -> (r: bool)
    requires
        i <= s@.len(),
    ensures
        r == (i + pat@.len() <= s@.len() && s@.subrange(i as int, i + pat@.len()) == pat@),
{
    let m = pat.len();
    let n = s.len();
    if m > n - i {
        return false;
    }
    let mut k: usize = 0;
    while k < m
        invariant
            m == pat@.len(),
            n == s@.len(),
            i <= s@.len(),
            i + m <= s@.len(),
            k <= m,
            forall|j: int| 0 <= j < k ==> s@[i + j] == pat@[j],
        decreases m - k,
    {
        if s[i + k] != pat[k] {
            proof {
                assert(s@.subrange(i as int, i + m)[k as int] != pat@[k as int]);
            }
            return false;
        }
        k = k + 1;
    }
    proof {
        assert(s@.subrange(i as int, i + m) =~= pat@);
    }
    true
}

fn strip_pattern(s: &Vec<char>, pat: &Vec<char>) -> (r: Vec<char>)
    requires
        pat@.len() > 0,
    ensures
        r@ == without_pattern(s@, pat@),
{
    let mut out: Vec<char> = Vec::new();
    let mut i: usize = 0;
    let m = pat.len();
    assert(s@.skip(0) == s@);
    while i < s.len()
        invariant
            m == pat@.len() > 0,
            i <= s@.len(),
            without_pattern(s@, pat@) == out@ + without_pattern(s@.skip(i as int), pat@),
        decreases s@.len() - i,
    {
        let ghost t = s@.skip(i as int);
        if occurs_at(s, i, pat) {
            proof {
                assert(t.take(m as int) == s@.subrange(i as int, i + m));
                assert(t.skip(m as int) == s@.skip(i + m));
            }
            i = i + m;
        } else {
            proof {
                assert(t.skip(1) == s@.skip(i + 1));
                if t.len() < m {
                    assert(without_pattern(t, pat@) == t);
                    assert(without_pattern(t.skip(1), pat@) == t.skip(1));
                    assert(t == seq![t[0]] + t.skip(1));
                } else {
                    assert(t.take(m as int) == s@.subrange(i as int, i + m));
                }
            }
            out.push(s[i]);
            i = i + 1;
            proof {
                assert(out@ == out@.drop_last() + seq![t[0]]);
            }
        }
    }
    proof {
        assert(s@.skip(i as int).len() == 0);
    }
    out
}

proof fn lemma_closing_bracket_bounds(s: Seq<char>, from: int)
    ensures
        closing_bracket(s, from) == -1 || (0 <= from <= closing_bracket(s, from) < s.len()
            && s[closing_bracket(s, from)] == ']'),
    decreases s.len() - from,
{
    if 0 <= from < s.len() && s[from] != ']' && s[from] != '\n' {
        lemma_closing_bracket_bounds(s, from + 1);
    }
}

/// The `]` closing a marker whose contents start at `from`.
fn find_closing(s: &Vec<char>, from: usize) -> (r: Option<usize>)
    requires
        from <= s@.len(),
    ensures
        r matches Some(j) ==> j == closing_bracket(s@, from as int) && from <= j < s@.len(),
        r is None ==> closing_bracket(s@, from as int) == -1,
{
    let mut i: usize = from;
    while i < s.len()
        invariant
            from <= i <= s@.len(),
            closing_bracket(s@, from as int) == closing_bracket(s@, i as int),
        decreases s@.len() - i,
    {
        if s[i] == ']' {
            return Some(i);
        }
        if s[i] == '\n' {
            return None;
        }
        i = i + 1;
    }
    None
}

/// Parts the text into what stays and the markers taken out of it.
fn split_markers(s: &Vec<char>) -> (r: (Vec<char>, Vec<Vec<char>>))
    ensures
        r.0@ == text_from(s@, 0),
        char_views(r.1@) == markers_from(s@, 0),
{
    let mut text: Vec<char> = Vec::new();
    let mut markers: Vec<Vec<char>> = Vec::new();
    let mut i: usize = 0;
    let n = s.len();
    while i < n
        invariant
            n == s@.len(),
            i <= n,
            text_from(s@, 0) == text@ + text_from(s@, i as int),
            markers_from(s@, 0) == char_views(markers@) + markers_from(s@, i as int),
        decreases n - i,
    {
        let mut end: Option<usize> = None;
        if i + 1 < n && s[i] == '#' && s[i + 1] == '[' {
            end = find_closing(s, i + 2);
        }
        proof {
            lemma_closing_bracket_bounds(s@, i + 2);
        }
        match end {
            Some(j) => {
                let m = sub_chars(s, i, j + 1);
                let ghost before = markers@;
                markers.push(m);
                proof {
                    assert(char_views(markers@) == char_views(before).push(m@));
                }
                i = j + 1;
            },
            None => {
                let ghost before = text@;
                text.push(s[i]);
                proof {
                    assert(text@ == before + seq![s@[i as int]]);
                }
                i = i + 1;
            },
        }
    }
    proof {
        assert(text@ + text_from(s@, i as int) == text@);
        assert(char_views(markers@) + markers_from(s@, i as int) == char_views(markers@));
    }
    (text, markers)
}

/// The pieces of `s[from..to]` between its commas.
fn split_commas_of(s: &Vec<char>, from: usize, to: usize) -> (r: Vec<Vec<char>>)
    requires
        from <= to <= s@.len(),
    ensures
        char_views(r@) == split_commas(s@.subrange(from as int, to as int)),
{
    let mut done: Vec<Vec<char>> = Vec::new();
    let mut start: usize = from;
    let mut i: usize = from;
    proof {
        assert(s@.subrange(from as int, from as int) == Seq::<char>::empty());
        assert(char_views(done@) == Seq::<Seq<char>>::empty());
        assert(split_commas(s@.subrange(from as int, from as int)) == char_views(done@).push(
            s@.subrange(start as int, i as int),
        ));
    }
    while i < to
        invariant
            from <= start <= i <= to <= s@.len(),
            split_commas(s@.subrange(from as int, i as int)) == char_views(done@).push(
                s@.subrange(start as int, i as int),
            ),
        decreases to - i,
    {
        let ghost u = s@.subrange(from as int, i + 1);
        proof {
            assert(u.drop_last() == s@.subrange(from as int, i as int));
            assert(u.last() == s@[i as int]);
        }
        if s[i] == ',' {
            let piece = sub_chars(s, start, i);
            let ghost before = done@;
            done.push(piece);
            proof {
                assert(char_views(done@) == char_views(before).push(piece@));
            }
            start = i + 1;
            i = i + 1;
            proof {
                assert(s@.subrange(start as int, i as int) == Seq::<char>::empty());
            }
        } else {
            i = i + 1;
            proof {
                assert(s@.subrange(start as int, i as int) == s@.subrange(start as int, i - 1).push(
                    s@[i - 1],
                ));
            }
        }
    }
    let last = sub_chars(s, start, to);
    let ghost before = done@;
    done.push(last);
    proof {
        assert(char_views(done@) == char_views(before).push(last@));
    }
    done
}

/// The arguments of a `feature` marker.
fn marker_arguments(d: &Vec<char>) -> (r: Option<Vec<Vec<char>>>)
    ensures
        r matches Some(a) ==> marker_args(d@) == Some(char_views(a@)),
        r is None ==> marker_args(d@) is None,
{
    let n = d.len();
    if n < 2 {
        return None;
    }
    proof {
        assert(d@.subrange(0, n as int) == d@);
        lemma_index_of_bounds(d@, '(', 2);
    }
    let p = match find_char(d, '(', 2, n) {
        Some(p) => p,
        None => {
            return None;
        },
    };
    proof {
        lemma_index_of_bounds(d@, ')', p + 1);
    }
    let q = match find_char(d, ')', p + 1, n) {
        Some(q) => q,
        None => {
            return None;
        },
    };
    let (a, b) = trim_bounds(d, 2, p);
    if !matches_literal(d, a, b, "feature") {
        return None;
    }
    Some(split_commas_of(d, p + 1, q))
}

proof fn lemma_args_prefix(ds: Seq<Seq<char>>, i: int)
    requires
        0 <= i <= ds.len(),
        all_marker_args(ds.take(i)) is None,
    ensures
        all_marker_args(ds) is None,
    decreases ds.len(),
{
    if i < ds.len() {
        assert(ds.drop_last().take(i) == ds.take(i));
        lemma_args_prefix(ds.drop_last(), i);
    } else {
        assert(ds.take(i) == ds);
    }
}

proof fn lemma_args_each(ds: Seq<Seq<char>>)
    requires
        all_marker_args(ds) is Some,
    ensures
        all_marker_args(ds)->0.len() == ds.len(),
        forall|i: int| 0 <= i < ds.len() ==> marker_args(#[trigger] ds[i]) == Some(all_marker_args(ds)->0[i]),
    decreases ds.len(),
{
    if ds.len() > 0 {
        lemma_args_each(ds.drop_last());
        let rest = all_marker_args(ds.drop_last())->0;
        assert forall|i: int| 0 <= i < ds.len() implies marker_args(#[trigger] ds[i]) == Some(all_marker_args(ds)->0[i]) by {
            if i < ds.len() - 1 {
                assert(ds[i] == ds.drop_last()[i]);
            }
        }
    }
}

proof fn lemma_names_prefix(names: Seq<Seq<char>>, i: int)
    requires
        0 <= i <= names.len(),
        features_named(names.take(i)) is None,
    ensures
        features_named(names) is None,
    decreases names.len(),
{
    if i < names.len() {
        assert(names.drop_last().take(i) == names.take(i));
        lemma_names_prefix(names.drop_last(), i);
    } else {
        assert(names.take(i) == names);
    }
}

proof fn lemma_features_prefix(argss: Seq<Seq<Seq<char>>>, i: int)
    requires
        0 <= i <= argss.len(),
        all_features(argss.take(i)) is None,
    ensures
        all_features(argss) is None,
    decreases argss.len(),
{
    if i < argss.len() {
        assert(argss.drop_last().take(i) == argss.take(i));
        lemma_features_prefix(argss.drop_last(), i);
    } else {
        assert(argss.take(i) == argss);
    }
}

/// The features named by a marker's arguments.
fn features_of(args: &Vec<Vec<char>>) -> (r: Option<Vec<ShaderFeature>>)
    ensures
        r matches Some(f) ==> features_named(char_views(args@)) == Some(f@),
        r is None ==> features_named(char_views(args@)) is None,
{
    let ghost names = char_views(args@);
    let mut out: Vec<ShaderFeature> = Vec::new();
    let mut i: usize = 0;
    while i < args.len()
        invariant
            names == char_views(args@),
            i <= args@.len(),
            features_named(names.take(i as int)) == Some(out@),
        decreases args@.len() - i,
    {
        let arg = &args[i];
        proof {
            assert(names.take(i + 1).drop_last() == names.take(i as int));
            assert(names.take(i + 1).last() == arg@);
            assert(arg@.subrange(0, arg@.len() as int) == arg@);
        }
        match feature_from_chars(arg, 0, arg.len()) {
            Some(f) => {
                out.push(f);
            },
            None => {
                proof {
                    lemma_names_prefix(names, i + 1);
                }
                return None;
            },
        }
        i = i + 1;
    }
    proof {
        assert(names.take(i as int) == names);
    }
    Some(out)
}

/// Appends the code of `fs`, each followed by a line break.
fn push_feature_block(out: &mut String, fs: &Vec<ShaderFeature>)
    ensures
        final(out)@ == old(out)@ + feature_block(fs@),
{
    let ghost start = out@;
    let mut i: usize = 0;
    while i < fs.len()
        invariant
            i <= fs@.len(),
            out@ == start + feature_block(fs@.take(i as int)),
        decreases fs@.len() - i,
    {
        proof {
            assert(fs@.take(i + 1).drop_last() == fs@.take(i as int));
        }
        out.append(fs[i].inserted_code());
        push_char(out, '\n');
        i = i + 1;
    }
    proof {
        assert(fs@.take(i as int) == fs@);
    }
}

/// Applies the marker grammar to a stage's source: carriage returns go, then
/// the version pragmas of that text, then each `#[feature(...)]` marker is
/// taken out and the code of the features it names is put in front, under a
/// fresh version pragma. Returns the new source and the declared features in
/// order.
pub fn preprocess(code: &str) -> (r: Result<(String, Vec<ShaderFeature>), ShaderError>)
    ensures
        r matches Ok((s, f)) ==> preprocessed(code@) == Ok::<(Seq<char>, Seq<ShaderFeature>), ShaderError>((s@, f@)),
        r matches Err(e) ==> preprocessed(code@) == Err::<(Seq<char>, Seq<ShaderFeature>), ShaderError>(e),
{
    let chars = chars_of(code);
    let no_returns = strip_char(&chars, '\r');
    let version = chars_of(VERSION_NUMBER);
    proof {
        reveal_strlit("#version 450");
    }
    let s = strip_pattern(&no_returns, &version);
    let (text, markers) = split_markers(&s);
    let ghost ds = char_views(markers@);
    assert(s@ == stripped(code@));
    assert(ds == markers_from(stripped(code@), 0));
    // Every marker must be a feature marker.
    let mut i: usize = 0;
    while i < markers.len()
        invariant
            ds == char_views(markers@),
            ds == markers_from(stripped(code@), 0),
            i <= markers@.len(),
            all_marker_args(ds.take(i as int)) is Some,
        decreases markers@.len() - i,
    {
        proof {
            assert(ds.take(i + 1).drop_last() == ds.take(i as int));
            assert(ds.take(i + 1).last() == markers@[i as int]@);
        }
        let parsed = marker_arguments(&markers[i]);
        if parsed.is_none() {
            proof {
                assert(marker_args(ds[i as int]) is None);
                assert(all_marker_args(ds.take(i + 1)) is None);
                lemma_args_prefix(ds, i + 1);
            }
            return Err(ShaderError::UnknownDirective);
        }
        i = i + 1;
    }
    proof {
        assert(ds.take(i as int) == ds);
        lemma_args_each(ds);
    }
    let ghost argss = all_marker_args(ds)->0;
    // Every argument must name a feature.
    let mut fss: Vec<Vec<ShaderFeature>> = Vec::new();
    let mut k: usize = 0;
    while k < markers.len()
        invariant
            ds == char_views(markers@),
            ds == markers_from(stripped(code@), 0),
            all_marker_args(ds) == Some(argss),
            argss.len() == ds.len(),
            forall|j: int| 0 <= j < ds.len() ==> marker_args(#[trigger] ds[j]) == Some(argss[j]),
            k <= markers@.len(),
            all_features(argss.take(k as int)) == Some(feature_views(fss@)),
        decreases markers@.len() - k,
    {
        proof {
            assert(argss.take(k + 1).drop_last() == argss.take(k as int));
            assert(argss.take(k + 1).last() == argss[k as int]);
            assert(ds[k as int] == markers@[k as int]@);
        }
        let args = match marker_arguments(&markers[k]) {
            Some(a) => a,
            None => {
                return Err(ShaderError::UnknownDirective);
            },
        };
        match features_of(&args) {
            Some(fs) => {
                let ghost before = fss@;
                fss.push(fs);
                proof {
                    assert(feature_views(fss@) == feature_views(before).push(fss@.last()@));
                }
            },
            None => {
                proof {
                    assert(argss[k as int] == char_views(args@));
                    assert(all_features(argss.take(k + 1)) is None);
                    lemma_features_prefix(argss, k + 1);
                }
                return Err(ShaderError::UnknownFeature);
            },
        }
        k = k + 1;
    }
    proof {
        assert(argss.take(k as int) == argss);
    }
    let ghost fv = feature_views(fss@);
    // The new source.
    let mut out = String::from_str(VERSION_NUMBER);
    push_char(&mut out, '\n');
    push_char(&mut out, '\n');
    let ghost head = out@;
    let mut j: usize = fss.len();
    proof {
        assert(fv.take(j as int) == fv);
        assert(out@ == head + Seq::<char>::empty());
        assert(inserted_code(fv) == Seq::<char>::empty() + inserted_code(fv.take(j as int)));
    }
    while j > 0
        invariant
            fv == feature_views(fss@),
            j <= fss@.len(),
            exists|x: Seq<char>| out@ == head + x && inserted_code(fv) == x + inserted_code(fv.take(j as int)),
        decreases j,
    {
        let ghost x = choose|x: Seq<char>| out@ == head + x && inserted_code(fv) == x + inserted_code(fv.take(j as int));
        proof {
            assert(fv.take(j as int).drop_last() == fv.take(j - 1));
            assert(fv.take(j as int).last() == fss@[j - 1]@);
        }
        push_feature_block(&mut out, &fss[j - 1]);
        proof {
            let y = x + feature_block(fss@[j - 1]@);
            assert(out@ == head + y);
            assert(inserted_code(fv) == y + inserted_code(fv.take(j - 1)));
        }
        j = j - 1;
    }
    proof {
        assert(fv.take(0) == Seq::<Seq<ShaderFeature>>::empty());
        assert(out@ == head + inserted_code(fv));
        assert(text@.subrange(0, text@.len() as int) == text@);
    }
    push_chars(&mut out, &text, 0, text.len());
    // The declared features, in order.
    let mut features: Vec<ShaderFeature> = Vec::new();
    let mut m: usize = 0;
    while m < fss.len()
        invariant
            fv == feature_views(fss@),
            m <= fss@.len(),
            features@ == concat_features(fv.take(m as int)),
        decreases fss@.len() - m,
    {
        proof {
            assert(fv.take(m + 1).drop_last() == fv.take(m as int));
            assert(fv.take(m + 1).last() == fss@[m as int]@);
        }
        let fs = &fss[m];
        let ghost before = features@;
        let mut t: usize = 0;
        while t < fs.len()
            invariant
                t <= fs@.len(),
                features@ == before + fs@.take(t as int),
            decreases fs@.len() - t,
        {
            features.push(fs[t]);
            t = t + 1;
            proof {
                assert(fs@.take(t as int) == fs@.take(t - 1).push(fs@[t - 1]));
            }
        }
        proof {
            assert(fs@.take(t as int) == fs@);
        }
        m = m + 1;
    }
    proof {
        assert(fv.take(m as int) == fv);
        assert(head == VERSION_NUMBER@ + seq!['\n', '\n']);
        assert(all_features(argss) == Some(fv));
        assert(out@ == VERSION_NUMBER@ + seq!['\n', '\n'] + inserted_code(fv) + text_from(stripped(code@), 0));
    }
    Ok((out, features))
}

} // verus!
