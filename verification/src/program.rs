//! The text of shader programs for OpenGL.
use vstd::prelude::*;
use crate::number::{decimal, digits};

verus! {

/// The lines that start the vertex shaders and the fragment shaders of a
/// context, by the version of that context.
pub struct Version {
    vertex: String,
    fragment: String,
}

/// Where the shared parts of a shader are put into its text.
pub open spec fn slot() -> Seq<char> {
    "// #includes"@
}

/// `content` with each occurrence of `pattern` replaced by `with`: what
/// `str::replace` makes of the three.
pub uninterp spec fn replaced(content: Seq<char>, pattern: Seq<char>, with: Seq<char>) -> Seq<char>;

/// `str::replace`: the text with each occurrence of `pattern` replaced.
#[verifier::external_body]
fn replace(content: &str, pattern: &str, with: &str) -> (text: String)
    ensures
        text@ == replaced(content@, pattern@, with@),
{
    content.replace(pattern, with)
}

/// Whether shaders can be written for a context of this version: OpenGL
/// from 2.0, at most 4, and OpenGL ES 2 and 3.
pub open spec fn supported(major: u32, minor: u32, is_embedded: bool) -> bool {
    if is_embedded {
        major == 2 || major == 3
    } else {
        major == 2 || major == 3 || major == 4
    }
}

/// The first line of a vertex shader.
pub open spec fn vertex_directive(major: u32, minor: u32, is_embedded: bool) -> Seq<char> {
    if major == 3 && minor <= 2 && !is_embedded {
        "#version 1"@ + digits((minor + 3) as nat) + "0"@
    } else if (major == 3 || major == 4) && !is_embedded {
        "#version "@ + digits(major as nat) + digits(minor as nat) + "0"@
    } else if major == 3 {
        "#version 3"@ + digits(minor as nat) + "0 es"@
    } else if is_embedded {
        "#version 100\n#define in attribute\n#define out varying"@
    } else {
        "#version 120\n#define in attribute\n#define out varying"@
    }
}

/// The first lines of a fragment shader.
pub open spec fn fragment_directive(major: u32, minor: u32, is_embedded: bool) -> Seq<char> {
    if major == 3 && minor <= 2 && !is_embedded {
        "#version 1"@ + digits((minor + 3) as nat) + "0"@ + "\n#define HIGHER_THAN_300 1"@
    } else if (major == 3 || major == 4) && !is_embedded {
        "#version "@ + digits(major as nat) + digits(minor as nat) + "0"@
            + "\n#define HIGHER_THAN_300 1"@
    } else if major == 3 {
        "#version 3"@ + digits(minor as nat) + "0 es"@ + "\n#define HIGHER_THAN_300 1"@
    } else if is_embedded {
        "#version 100\n#define in varying"@
    } else {
        "#version 120\n#define in varying"@
    }
}

/// The shared parts, each behind a line break.
pub open spec fn joined(parts: Seq<&str>, n: nat) -> Seq<char>
    decreases n,
{
    if n == 0 || n > parts.len() {
        Seq::empty()
    } else {
        joined(parts, (n - 1) as nat) + "\n"@ + parts[n - 1]@
    }
}

/// The text of a shader: the directive of the version, a line break, and the
/// content, in which the slot for the shared parts holds them, if there are
/// any.
pub open spec fn shader_text(version: Seq<char>, content: Seq<char>, parts: Seq<&str>) -> Seq<char> {
    let shared = joined(parts, parts.len());
    if shared.len() == 0 {
        version + "\n"@ + content
    } else {
        version + "\n"@ + replaced(content, slot(), shared)
    }
}

impl Version {
    /// The directive of vertex shaders.
    pub closed spec fn vertex_text(&self) -> Seq<char> {
        self.vertex@
    }

    /// The directive of fragment shaders.
    pub closed spec fn fragment_text(&self) -> Seq<char> {
        self.fragment@
    }

    /// The directives for a context of the version `major.minor`, embedded
    /// (OpenGL ES) or not.
    pub fn new(major: u32, minor: u32, is_embedded: bool) -> (version: Version)
        requires
            supported(major, minor, is_embedded),
        ensures
            version.vertex_text() == vertex_directive(major, minor, is_embedded),
            version.fragment_text() == fragment_directive(major, minor, is_embedded),
    {
        if major == 3 && minor <= 2 && !is_embedded {
            // OpenGL 3.0 to 3.2
            let mut vertex = String::from_str("#version 1");
            vertex.append(decimal((minor + 3) as u64).as_str());
            vertex.append("0");
            let mut fragment = vertex.clone();
            fragment.append("\n#define HIGHER_THAN_300 1");
            Version { vertex, fragment }
        } else if (major == 3 || major == 4) && !is_embedded {
            // OpenGL from 3.3
            let mut vertex = String::from_str("#version ");
            vertex.append(decimal(major as u64).as_str());
            vertex.append(decimal(minor as u64).as_str());
            vertex.append("0");
            let mut fragment = vertex.clone();
            fragment.append("\n#define HIGHER_THAN_300 1");
            Version { vertex, fragment }
        } else if major == 3 {
            // OpenGL ES from 3.0
            let mut vertex = String::from_str("#version 3");
            vertex.append(decimal(minor as u64).as_str());
            vertex.append("0 es");
            let mut fragment = vertex.clone();
            fragment.append("\n#define HIGHER_THAN_300 1");
            Version { vertex, fragment }
        } else if is_embedded {
            // OpenGL ES from 2.0
            Version {
                vertex: String::from_str("#version 100\n#define in attribute\n#define out varying"),
                fragment: String::from_str("#version 100\n#define in varying"),
            }
        } else {
            // OpenGL 2.1
            Version {
                vertex: String::from_str("#version 120\n#define in attribute\n#define out varying"),
                fragment: String::from_str("#version 120\n#define in varying"),
            }
        }
    }

    /// The text of a vertex shader with the given content and shared parts.
    pub fn vertex(&self, content: &str, parts: &Vec<&str>) -> (text: String)
        ensures
            text@ == shader_text(self.vertex_text(), content@, parts@),
    {
        concat_shader(&self.vertex, content, parts)
    }

    /// The text of a fragment shader with the given content and shared
    /// parts.
    pub fn fragment(&self, content: &str, parts: &Vec<&str>) -> (text: String)
        ensures
            text@ == shader_text(self.fragment_text(), content@, parts@),
    {
        concat_shader(&self.fragment, content, parts)
    }
}

/// Puts the text of a shader together.
pub fn concat_shader(version: &String, content: &str, parts: &Vec<&str>) -> (text: String)
    ensures
        text@ == shader_text(version@, content@, parts@),
{
    let mut shared = String::new();
    let mut i: usize = 0;
    while i < parts.len()
        invariant
            i <= parts.len(),
            shared@ == joined(parts@, i as nat),
        decreases parts.len() - i,
    {
        shared.append("\n");
        shared.append(parts[i]);
        i = i + 1;
    }
    let mut text = version.clone();
    text.append("\n");
    if shared.as_str().unicode_len() == 0 {
        text.append(content);
    } else {
        text.append(replace(content, "// #includes", shared.as_str()).as_str());
    }
    text
}

} // verus!
