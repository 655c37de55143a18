//! The automation script that drives the presentation application, and the
//! escaping of paths into its string literals.

use vstd::prelude::*;
use crate::text::{push_char, push_str};

verus! {

/// How one character is written inside a script string literal: quote and
/// backslash are preceded by a backslash, every other character stands as is.
pub open spec fn escape_char(c: char) -> Seq<char> {
    if c == '"' || c == '\\' {
        seq!['\\', c]
    } else {
        seq![c]
    }
}

/// The body of a string literal that denotes `s`.
pub open spec fn escaped(s: Seq<char>) -> Seq<char>
    decreases s.len(),
{
    if s.len() == 0 {
        Seq::empty()
    } else {
        escape_char(s[0]) + escaped(s.drop_first())
    }
}

/// The string literal that denotes `s`, quotes included.
pub open spec fn quoted(s: Seq<char>) -> Seq<char> {
    seq!['"'] + escaped(s) + seq!['"']
}

/// What the script interpreter makes of the character after a backslash.
pub open spec fn unescape_char(c: char) -> Option<char> {
    if c == '"' || c == '\\' {
        Some(c)
    } else if c == 'n' {
        Some('\n')
    } else if c == 't' {
        Some('\t')
    } else if c == 'r' {
        Some('\r')
    } else {
        None
    }
}

/// How the interpreter reads the rest of a string literal after its opening
/// quote: the characters it denotes, and how many characters up to and
/// including the closing quote it spans; `None` where the literal is not closed
/// or holds an unknown escape.
pub open spec fn read_literal_body(t: Seq<char>) -> Option<(Seq<char>, nat)>
    decreases t.len(),
{
    if t.len() == 0 {
        None
    } else if t[0] == '"' {
        Some((Seq::empty(), 1))
    } else if t[0] == '\\' {
        if t.len() < 2 {
            None
        } else {
            match (unescape_char(t[1]), read_literal_body(t.subrange(2, t.len() as int))) {
                (Some(c), Some((rest, n))) => Some((seq![c] + rest, n + 2)),
                _ => None,
            }
        }
    } else {
        match read_literal_body(t.drop_first()) {
            Some((rest, n)) => Some((seq![t[0]] + rest, n + 1)),
            None => None,
        }
    }
}

/// How the interpreter reads a string literal at the start of `t`: the
/// characters it denotes, and how many characters of `t` it spans.
pub open spec fn read_literal(t: Seq<char>) -> Option<(Seq<char>, nat)> {
    if t.len() > 0 && t[0] == '"' {
        match read_literal_body(t.drop_first()) {
            Some((s, n)) => Some((s, n + 1)),
            None => None,
        }
    } else {
        None
    }
}

proof fn lemma_escaped_append(a: Seq<char>, b: Seq<char>)
    ensures
        escaped(a + b) == escaped(a) + escaped(b),
    decreases a.len(),
{
    if a.len() == 0 {
        assert(a + b =~= b);
        assert(escaped(a) + escaped(b) =~= escaped(b));
    } else {
        assert((a + b).drop_first() =~= a.drop_first() + b);
        lemma_escaped_append(a.drop_first(), b);
        assert(escaped(a + b) =~= escape_char(a[0]) + (escaped(a.drop_first()) + escaped(b)));
    }
}

proof fn lemma_read_body(s: Seq<char>, rest: Seq<char>)
    ensures
        read_literal_body(escaped(s) + seq!['"'] + rest) == Some((s, (escaped(s).len() + 1) as nat)),
    decreases s.len(),
{
    let t = escaped(s) + seq!['"'] + rest;
    if s.len() == 0 {
        assert(escaped(s) =~= Seq::<char>::empty());
        assert(t[0] == '"');
        assert(s =~= Seq::<char>::empty());
    } else {
        let c = s[0];
        let tail = s.drop_first();
        lemma_read_body(tail, rest);
        let inner = escaped(tail) + seq!['"'] + rest;
        if c == '"' || c == '\\' {
            assert(t =~= seq!['\\', c] + inner);
            assert(t.subrange(2, t.len() as int) =~= inner);
            assert(s =~= seq![c] + tail);
        } else {
            assert(t =~= seq![c] + inner);
            assert(t.drop_first() =~= inner);
            assert(s =~= seq![c] + tail);
        }
    }
}

/// A path written as a script string literal reads back as exactly that path,
/// and the literal ends exactly where the quoting ends, whatever follows it: no
/// character of the path can close the literal early.
pub proof fn lemma_quoted_round_trip(path: Seq<char>, rest: Seq<char>)
    ensures
        read_literal(quoted(path) + rest) == Some((path, quoted(path).len())),
{
    let t = quoted(path) + rest;
    lemma_read_body(path, rest);
    assert(t.drop_first() =~= escaped(path) + seq!['"'] + rest);
}

/// Appends the string literal that denotes `p`.
pub fn push_quoted(out: &mut String, p: &str)
    ensures
        final(out)@ == old(out)@ + quoted(p@),
{
    let ghost start = out@;
    push_char(out, '"');
    let n = p.unicode_len();
    let mut i: usize = 0;
    while i < n
        invariant
            n == p@.len(),
            0 <= i <= n,
            out@ == start + seq!['"'] + escaped(p@.subrange(0, i as int)),
        decreases n - i,
    {
        let c = p.get_char(i);
        if c == '"' || c == '\\' {
            push_char(out, '\\');
        }
        push_char(out, c);
        proof {
            let before = p@.subrange(0, i as int);
            lemma_escaped_append(before, seq![c]);
            assert(p@.subrange(0, i + 1) =~= before + seq![c]);
            assert(escaped(seq![c]) =~= escape_char(c)) by {
                assert(seq![c].drop_first() =~= Seq::<char>::empty());
                assert(escaped(Seq::<char>::empty()) =~= Seq::<char>::empty());
                assert(escape_char(c) + Seq::<char>::empty() =~= escape_char(c));
            }
        }
        i = i + 1;
    }
    assert(p@.subrange(0, n as int) =~= p@);
    push_char(out, '"');
    assert(out@ =~= start + quoted(p@));
}


/// The script's opening, up to the list of images.
pub const SCRIPT_HEAD: &'static str = "\nset imageList to {";

/// Between the list of images and the destination literal.
pub const SCRIPT_MIDDLE: &'static str = "}\nset outputPath to ";

/// The script's body: a new document whose first slide takes the first image,
/// a new slide at the end for each later image, each image stretched over the
/// whole slide from its origin, then a save to the destination. The
/// application is not brought to the foreground.
pub const SCRIPT_BODY: &'static str = "\n\ntell application \"Keynote\"\n    set theDoc to make new document\n\n    set slideWidth to width of theDoc\n    set slideHeight to height of theDoc\n\n    repeat with i from 1 to count of imageList\n        set imagePath to item i of imageList\n        set imageFile to (POSIX file imagePath) as alias\n\n        if i is 1 then\n            set currentSlide to slide 1 of theDoc\n        else\n            set currentSlide to make new slide at end of slides of theDoc\n        end if\n\n        tell currentSlide\n            set theImage to make new image with properties {file:imageFile}\n            set width of theImage to slideWidth\n            set height of theImage to slideHeight\n            set position of theImage to {0, 0}\n        end tell\n    end repeat\n\n    save theDoc in POSIX file outputPath\nend tell\n";

/// Put before the interpreter's error output when the script fails.
pub const PERMISSION_HINT: &'static str = "Erro no Keynote (Verifique permissões de acesso): ";

/// Said when a deck is asked for without any slide.
pub const NO_SLIDES: &'static str = "Nenhum slide foi adicionado";

/// Said when the automation interpreter could not be started.
pub const LAUNCH_FAILED: &'static str = "Falha ao executar osascript";

/// The list literal's items: each path quoted, separated by a comma and a space.
pub open spec fn image_list(paths: Seq<Seq<char>>) -> Seq<char>
    decreases paths.len(),
{
    if paths.len() == 0 {
        Seq::empty()
    } else if paths.len() == 1 {
        quoted(paths[0])
    } else {
        image_list(paths.drop_last()) + seq![',', ' '] + quoted(paths.last())
    }
}

/// The whole script for the given images, in slide order, and destination.
pub open spec fn script_text(paths: Seq<Seq<char>>, output: Seq<char>) -> Seq<char> {
    SCRIPT_HEAD@ + image_list(paths) + SCRIPT_MIDDLE@ + quoted(output) + SCRIPT_BODY@
}

/// Why a deck could not be assembled.
#[derive(Debug, PartialEq, Eq)]
pub enum AssemblyError {
    /// There was no image to build a deck of; nothing was run.
    NoSlides,
    /// The interpreter ended with a failure; its error output, verbatim.
    ScriptFailed(String),
    /// The interpreter could not be started.
    LaunchFailed,
}

impl AssemblyError {
    pub open spec fn message_spec(&self) -> Seq<char> {
        match self {
            AssemblyError::NoSlides => NO_SLIDES@,
            AssemblyError::ScriptFailed(stderr) => PERMISSION_HINT@ + stderr@,
            AssemblyError::LaunchFailed => LAUNCH_FAILED@,
        }
    }

    /// The text shown for this error; a script failure carries the permission
    /// hint followed by the interpreter's error output.
    pub fn message(&self) -> (r: String)
        ensures
            r@ == self.message_spec(),
    {
        match self {
            AssemblyError::NoSlides => String::from_str(NO_SLIDES),
            AssemblyError::ScriptFailed(stderr) => {
                let mut r = String::from_str(PERMISSION_HINT);
                push_str(&mut r, stderr.as_str());
                r
            },
            AssemblyError::LaunchFailed => String::from_str(LAUNCH_FAILED),
        }
    }
}

/// What the interpreter's exit says of the assembly: success exactly when it
/// exited successfully, else the failure with its error output.
pub fn assembly_result(exit_success: bool, stderr: &str) -> (r: Result<(), AssemblyError>)
    ensures
        exit_success ==> r is Ok,
        !exit_success ==> (r matches Err(AssemblyError::ScriptFailed(e)) && e@ == stderr@),
{
    if exit_success {
        Ok(())
    } else {
        Err(AssemblyError::ScriptFailed(String::from_str(stderr)))
    }
}

/// How the interpreter reads the items of a list literal after its opening
/// brace: string literals separated by a comma and a space, up to the closing
/// brace; `None` where that shape is broken.
pub open spec fn read_list_items(t: Seq<char>) -> Option<Seq<Seq<char>>>
    decreases t.len(),
{
    match read_literal(t) {
        Some((item, n)) => if n < t.len() && t[n as int] == '}' {
            Some(seq![item])
        } else if n + 1 < t.len() && t[n as int] == ',' && t[n + 1 as int] == ' ' {
            match read_list_items(t.subrange(n + 2 as int, t.len() as int)) {
                Some(rest) => Some(seq![item] + rest),
                None => None,
            }
        } else {
            None
        },
        None => None,
    }
}

proof fn lemma_image_list_front(paths: Seq<Seq<char>>)
    requires
        paths.len() >= 2,
    ensures
        image_list(paths) == quoted(paths[0]) + seq![',', ' '] + image_list(paths.drop_first()),
    decreases paths.len(),
{
    let sep = seq![',', ' '];
    let dl = paths.drop_last();
    let df = paths.drop_first();
    assert(image_list(paths) == image_list(dl) + sep + quoted(paths.last()));
    if paths.len() == 2 {
        assert(dl =~= seq![paths[0]]);
        assert(df =~= seq![paths[1]]);
        assert(image_list(dl) == quoted(paths[0]));
        assert(image_list(df) == quoted(paths[1]));
        assert(image_list(paths) =~= quoted(paths[0]) + sep + image_list(df));
    } else {
        lemma_image_list_front(dl);
        assert(dl.drop_first() =~= df.drop_last());
        assert(df.last() == paths.last());
        assert(dl[0] == paths[0]);
        assert(image_list(df) == image_list(df.drop_last()) + sep + quoted(df.last()));
        assert(image_list(paths) =~= quoted(paths[0]) + sep + image_list(df));
    }
}

proof fn lemma_read_image_list(paths: Seq<Seq<char>>, rest: Seq<char>)
    requires
        paths.len() >= 1,
    ensures
        read_list_items(image_list(paths) + seq!['}'] + rest) == Some(paths),
    decreases paths.len(),
{
    let t = image_list(paths) + seq!['}'] + rest;
    if paths.len() == 1 {
        lemma_quoted_round_trip(paths[0], seq!['}'] + rest);
        assert(t =~= quoted(paths[0]) + (seq!['}'] + rest));
        assert(paths =~= seq![paths[0]]);
    } else {
        lemma_image_list_front(paths);
        let tail = paths.drop_first();
        let after = image_list(tail) + seq!['}'] + rest;
        lemma_quoted_round_trip(paths[0], seq![',', ' '] + after);
        assert(t =~= quoted(paths[0]) + (seq![',', ' '] + after));
        let n = quoted(paths[0]).len();
        assert(t.subrange(n + 2 as int, t.len() as int) =~= after);
        lemma_read_image_list(tail, rest);
        assert(paths =~= seq![paths[0]] + tail);
    }
}

/// The script reads back as written: the list after its opening line holds
/// exactly the given images, in slide order, and the destination literal holds
/// exactly the destination, whatever quotes, backslashes or spaces the paths
/// contain.
pub proof fn lemma_script_reads_back(paths: Seq<Seq<char>>, output: Seq<char>)
    requires
        paths.len() >= 1,
    ensures
        ({
            let t = script_text(paths, output);
            let list_at = SCRIPT_HEAD@.len() as int;
            let output_at = list_at + image_list(paths).len() + SCRIPT_MIDDLE@.len();
            &&& read_list_items(t.subrange(list_at, t.len() as int)) == Some(paths)
            &&& read_literal(t.subrange(output_at, t.len() as int)) == Some(
                (output, quoted(output).len()),
            )
        }),
{
    reveal_strlit("}\nset outputPath to ");
    let t = script_text(paths, output);
    let list_at = SCRIPT_HEAD@.len() as int;
    let output_at = list_at + image_list(paths).len() + SCRIPT_MIDDLE@.len();
    let middle = SCRIPT_MIDDLE@;
    let after_list = middle.drop_first() + quoted(output) + SCRIPT_BODY@;
    assert(middle =~= seq!['}'] + middle.drop_first());
    assert(t.subrange(list_at, t.len() as int) =~= image_list(paths) + seq!['}'] + after_list);
    lemma_read_image_list(paths, after_list);
    assert(t.subrange(output_at, t.len() as int) =~= quoted(output) + SCRIPT_BODY@);
    lemma_quoted_round_trip(output, SCRIPT_BODY@);
}

/// Collects slide images, in order, for one deck.
pub struct KeynoteBuilder {
    slide_images: Vec<String>,
}

impl View for KeynoteBuilder {
    type V = Seq<Seq<char>>;

    closed spec fn view(&self) -> Seq<Seq<char>> {
        self.slide_images@.map_values(|p: String| p@)
    }
}

impl KeynoteBuilder {
    /// A builder without slides.
    pub fn new() -> (r: Self)
        ensures
            r@ == Seq::<Seq<char>>::empty(),
    {
        let r = KeynoteBuilder { slide_images: Vec::new() };
        assert(r@ =~= Seq::<Seq<char>>::empty());
        r
    }

    /// Adds an image as the next slide.
    pub fn add_slide(&mut self, image_path: &str)
        ensures
            final(self)@ == old(self)@.push(image_path@),
    {
        self.slide_images.push(String::from_str(image_path));
        assert(self@ =~= old(self)@.push(image_path@));
    }

    /// The number of slides added so far.
    pub fn slide_count(&self) -> (r: usize)
        ensures
            r == self@.len(),
    {
        self.slide_images.len()
    }

    /// The script that builds the deck and saves it at `output_path`; fails,
    /// and nothing is to be run, when no slide was added.
    pub fn script(&self, output_path: &str) -> (r: Result<String, AssemblyError>)
        ensures
            self@.len() == 0 <==> r is Err,
            r matches Err(e) ==> e == AssemblyError::NoSlides,
            r matches Ok(s) ==> s@ == script_text(self@, output_path@),
    {
        let n = self.slide_images.len();
        if n == 0 {
            return Err(AssemblyError::NoSlides);
        }
        let mut out = String::from_str(SCRIPT_HEAD);
        let mut i: usize = 0;
        while i < n
            invariant
                n == self.slide_images@.len(),
                n > 0,
                0 <= i <= n,
                out@ == SCRIPT_HEAD@ + image_list(self@.subrange(0, i as int)),
            decreases n - i,
        {
            let ghost before = out@;
            if i > 0 {
                push_char(&mut out, ',');
                push_char(&mut out, ' ');
            }
            push_quoted(&mut out, self.slide_images[i].as_str());
            proof {
                let prefix = self@.subrange(0, i as int);
                let next = self@.subrange(0, i + 1);
                assert(next.drop_last() =~= prefix);
                assert(next.last() == self.slide_images@[i as int]@);
                if i == 0 {
                    assert(prefix =~= Seq::<Seq<char>>::empty());
                    assert(out@ =~= SCRIPT_HEAD@ + image_list(next));
                } else {
                    assert(out@ =~= SCRIPT_HEAD@ + image_list(next));
                }
            }
            i = i + 1;
        }
        assert(self@.subrange(0, n as int) =~= self@);
        push_str(&mut out, SCRIPT_MIDDLE);
        push_quoted(&mut out, output_path);
        push_str(&mut out, SCRIPT_BODY);
        assert(out@ =~= script_text(self@, output_path@));
        Ok(out)
    }
}

} // verus!
