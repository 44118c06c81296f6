use vstd::prelude::*;

use crate::text::chars_of;

verus! {

/// What a model key looks like to contracts: its name and its tag.
pub type KeyView = (Seq<char>, Seq<char>);

/// Identifies a loadable model by `(name, tag)`; comparisons are case-sensitive.
pub struct ModelKey {
    pub name: String,
    pub tag: String,
}

impl View for ModelKey {
    type V = KeyView;

    open spec fn view(&self) -> KeyView {
        (self.name@, self.tag@)
    }
}

impl Clone for ModelKey {
    fn clone(&self) -> (r: Self)
        ensures
            r == *self,
    {
        ModelKey { name: self.name.clone(), tag: self.tag.clone() }
    }
}

/// `i` is the position of the first `c` in `s`, or `s.len()` when `s` holds none.
pub open spec fn is_first_pos(s: Seq<char>, c: char, i: int) -> bool {
    &&& 0 <= i <= s.len()
    &&& i < s.len() ==> s[i] == c
    &&& forall|j: int| 0 <= j < i ==> s[j] != c
}

pub open spec fn first_pos(s: Seq<char>, c: char) -> int {
    choose|i: int| is_first_pos(s, c, i)
}

/// Path-unsafe characters of a model name.
pub open spec fn is_path_separator(c: char) -> bool {
    c == '/' || c == '\\'
}

/// A model name with every path separator replaced by `_`.
pub open spec fn sanitized(s: Seq<char>) -> Seq<char> {
    s.map_values(|c: char| if is_path_separator(c) { '_' } else { c })
}

/// The name part of `name[:tag[:...]]`.
pub open spec fn name_part(s: Seq<char>) -> Seq<char> {
    s.take(first_pos(s, ':'))
}

/// The tag part of `name[:tag[:...]]`: `latest` when no `:` is present.
pub open spec fn tag_part(s: Seq<char>) -> Seq<char> {
    let i = first_pos(s, ':');
    if i == s.len() {
        "latest"@
    } else {
        let rest = s.skip(i + 1);
        rest.take(first_pos(rest, ':'))
    }
}

/// The key that a model reference of the form `name[:tag]` resolves to.
pub open spec fn parsed_key(s: Seq<char>) -> KeyView {
    (sanitized(name_part(s)), tag_part(s))
}

/// The catalog key `name:tag`.
pub open spec fn joined_key(k: KeyView) -> Seq<char> {
    k.0 + ":"@ + k.1
}

proof fn lemma_first_pos_unique(s: Seq<char>, c: char, i: int)
    requires
        is_first_pos(s, c, i),
    ensures
        first_pos(s, c) == i,
{
    let k = first_pos(s, c);
    assert(is_first_pos(s, c, k));
    if k < i {
        assert(s[k] != c);
    } else if i < k {
        assert(s[i] != c);
    }
}

/// Position of the first `c` in `v` at or after `from`, or `v.len()`.
fn find_char(v: &Vec<char>, c: char, from: usize) -> (r: usize)
    requires
        from <= v.len(),
    ensures
        from <= r <= v.len(),
        r < v.len() ==> v@[r as int] == c,
        forall|j: int| from <= j < r ==> v@[j] != c,
{
    let mut i = from;
    while i < v.len()
        invariant
            from <= i <= v.len(),
            forall|j: int| from <= j < i ==> v@[j] != c,
        decreases v.len() - i,
    {
        if v[i] == c {
            return i;
        }
        i = i + 1;
    }
    i
}

/// Copies `s[from..to]` with path separators replaced by `_`.
fn sanitized_range(s: &str, chars: &Vec<char>, from: usize, to: usize) -> (r: String)
    requires
        chars@ == s@,
        from <= to <= s@.len(),
    ensures
        r@ == sanitized(s@.subrange(from as int, to as int)),
{
    let mut out = String::new();
    let mut seg = from;
    let mut i = from;
    while i < to
        invariant
            chars@ == s@,
            from <= seg <= i <= to <= s@.len(),
            out@ + s@.subrange(seg as int, i as int) == sanitized(s@.subrange(from as int, i as int)),
            forall|j: int| seg <= j < i ==> !is_path_separator(s@[j]),
        decreases to - i,
    {
        let c = chars[i];
        let ghost out0 = out@;
        let ghost seg0 = seg;
        assert(s@.subrange(from as int, i + 1) == s@.subrange(from as int, i as int).push(c));
        assert(sanitized(s@.subrange(from as int, i + 1)) =~= sanitized(
            s@.subrange(from as int, i as int),
        ).push(if is_path_separator(c) { '_' } else { c }));
        if c == '/' || c == '\\' {
            let part = s.substring_char(seg, i);
            out.append(part);
            proof {
                reveal_strlit("_");
            }
            out.append("_");
            seg = i + 1;
            assert(out@ =~= (out0 + s@.subrange(seg0 as int, i as int)).push('_'));
            assert(s@.subrange(seg as int, i + 1) =~= Seq::<char>::empty());
            assert(out@ + s@.subrange(seg as int, i + 1) =~= out@);
        } else {
            assert(s@.subrange(seg as int, i + 1) =~= s@.subrange(seg as int, i as int).push(c));
            assert(out@ + s@.subrange(seg as int, i + 1) =~= (out@ + s@.subrange(
                seg as int,
                i as int,
            )).push(c));
        }
        i = i + 1;
    }
    let part = s.substring_char(seg, to);
    out.append(part);
    out
}

/// The name part of a model reference `name[:tag]`, as written.
pub fn name_of(model: &str) -> (r: String)
    ensures
        r@ == name_part(model@),
{
    let chars = chars_of(model);
    let i = find_char(&chars, ':', 0);
    proof {
        lemma_first_pos_unique(model@, ':', i as int);
    }
    let part = model.substring_char(0, i);
    assert(part@ =~= model@.take(i as int));
    String::from_str(part)
}

/// The tag part of a model reference `name[:tag]`, `latest` when absent.
pub fn tag_of(model: &str) -> (r: String)
    ensures
        r@ == tag_part(model@),
{
    let chars = chars_of(model);
    let n = chars.len();
    let i = find_char(&chars, ':', 0);
    proof {
        lemma_first_pos_unique(model@, ':', i as int);
    }
    if i == n {
        proof {
            reveal_strlit("latest");
        }
        String::from_str("latest")
    } else {
        let j = find_char(&chars, ':', i + 1);
        let ghost rest = model@.skip(i + 1);
        proof {
            assert(is_first_pos(rest, ':', j - (i + 1)));
            lemma_first_pos_unique(rest, ':', j - (i + 1));
            assert(rest.take(j - (i + 1)) =~= model@.subrange(i + 1, j as int));
        }
        String::from_str(model.substring_char(i + 1, j))
    }
}

impl ModelKey {
    pub fn new(name: String, tag: String) -> (r: ModelKey)
        ensures
            r.name == name,
            r.tag == tag,
    {
        ModelKey { name, tag }
    }

    /// Whether two keys name the same model.
    pub fn same_as(&self, other: &ModelKey) -> (r: bool)
        ensures
            r == (self@ == other@),
    {
        let a = self.name == other.name;
        let b = self.tag == other.tag;
        a && b
    }

    /// Resolves a model reference `name[:tag]`: the tag defaults to `latest`,
    /// and path separators in the name become `_`.
    pub fn parse(model: &str) -> (r: ModelKey)
        ensures
            r@ == parsed_key(model@),
    {
        let chars = chars_of(model);
        let i = find_char(&chars, ':', 0);
        proof {
            lemma_first_pos_unique(model@, ':', i as int);
        }
        let name = sanitized_range(model, &chars, 0, i);
        assert(model@.subrange(0, i as int) == model@.take(i as int));
        ModelKey { name, tag: tag_of(model) }
    }

    /// The catalog key `name:tag`.
    pub fn joined(&self) -> (r: String)
        ensures
            r@ == joined_key(self@),
    {
        let mut s = self.name.clone();
        s.append(":");
        s.append(self.tag.as_str());
        s
    }
}

} // verus!
