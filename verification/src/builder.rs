//! The builder: a mutable accumulator from which containers are taken as
//! independent snapshots.

use vstd::prelude::*;
use crate::container::{AfeFile, AfeFileView, FORMAT_VERSION};
use crate::error::AfeError;
use crate::format::spec_encode;
use crate::permissions::{is_verdict, validate_permissions, DEFAULT_PERMISSIONS};

verus! {

/// Assembles a container step by step: the identity of the application is
/// given at creation, the script grows by appending, the permission string
/// can be replaced. The usage tag is given only when a snapshot is taken.
pub struct AfeBuilder {
    app_name: String,
    app_version: String,
    lua_script: String,
    permissions: String,
}

/// What a builder is to the contracts: its four texts.
pub struct AfeBuilderView {
    pub app_name: Seq<char>,
    pub app_version: Seq<char>,
    pub lua_script: Seq<char>,
    pub permissions: Seq<char>,
}

impl View for AfeBuilder {
    type V = AfeBuilderView;

    closed spec fn view(&self) -> AfeBuilderView {
        AfeBuilderView {
            app_name: self.app_name@,
            app_version: self.app_version@,
            lua_script: self.lua_script@,
            permissions: self.permissions@,
        }
    }
}

impl AfeBuilderView {
    /// The container that a builder in this state yields under the tag
    /// `using`.
    pub open spec fn snapshot(self, using: Seq<char>) -> AfeFileView {
        AfeFileView {
            version: FORMAT_VERSION,
            app_name: self.app_name,
            app_version: self.app_version,
            lua_script: self.lua_script,
            permissions: self.permissions,
            using,
        }
    }
}

/// The texts `parts` with `sep` between each two neighbours.
pub open spec fn join(parts: Seq<Seq<char>>, sep: Seq<char>) -> Seq<char>
    decreases parts.len(),
{
    if parts.len() == 0 {
        Seq::empty()
    } else if parts.len() == 1 {
        parts[0]
    } else {
        join(parts.drop_last(), sep) + sep + parts.last()
    }
}

/// The characters of each of a list of strings.
pub open spec fn texts_of(args: Seq<&str>) -> Seq<Seq<char>> {
    Seq::new(args.len(), |i: int| args[i]@)
}

/// The definition of a function in the script language: a header that
/// names the function and lists its parameters, joined by a comma and a
/// space; the body on lines of its own; the closing `end`.
pub open spec fn function_block(name: Seq<char>, params: Seq<Seq<char>>, body: Seq<char>) -> Seq<
    char,
> {
    "function "@ + name + "("@ + join(params, ", "@) + ")\n"@ + body + "\nend\n"@
}

/// Joining one more part: the separator comes before every part but the
/// first.
proof fn lemma_join_next(parts: Seq<Seq<char>>, sep: Seq<char>, i: int)
    requires
        0 <= i < parts.len(),
    ensures
        join(parts.take(i + 1), sep) == (if i == 0 {
            parts[0]
        } else {
            join(parts.take(i), sep) + sep + parts[i]
        }),
{
    assert(parts.take(i + 1).drop_last() =~= parts.take(i));
}

impl AfeBuilder {
    /// A builder for the application `app_name` in version `app_version`,
    /// with an empty script and the default permissions.
    pub fn new(app_name: &str, app_version: &str) -> (b: Self)
        ensures
            b@ == (AfeBuilderView {
                app_name: app_name@,
                app_version: app_version@,
                lua_script: Seq::empty(),
                permissions: DEFAULT_PERMISSIONS@,
            }),
    {
        AfeBuilder {
            app_name: app_name.to_string(),
            app_version: app_version.to_string(),
            lua_script: String::new(),
            permissions: DEFAULT_PERMISSIONS.to_string(),
        }
    }

    /// Replaces the permission string. Any text is taken: whether it follows
    /// the grammar is for `validate` to say.
    pub fn set_permissions(&mut self, permissions: &str) -> (r: &mut Self)
        ensures
            r@ == (AfeBuilderView { permissions: permissions@, ..old(self)@ }),
            *final(self) == *final(r),
    {
        self.permissions = permissions.to_string();
        self
    }

    /// Appends the definition of the function `name` with the parameters
    /// `args` and the given body to the script. Neither the name nor the
    /// parameters are checked.
    pub fn add_lua_function(&mut self, name: &str, args: Vec<&str>, body: &str) -> (r: &mut Self)
        ensures
            r@ == (AfeBuilderView {
                lua_script: old(self)@.lua_script + function_block(name@, texts_of(args@), body@),
                ..old(self)@
            }),
            *final(self) == *final(r),
    {
        let ghost params = texts_of(args@);
        let mut block = String::new();
        block.append("function ");
        block.append(name);
        block.append("(");
        let mut i: usize = 0;
        while i < args.len()
            invariant
                i <= args@.len(),
                params == texts_of(args@),
                block@ == "function "@ + name@ + "("@ + join(params.take(i as int), ", "@),
            decreases args@.len() - i,
        {
            if i > 0 {
                block.append(", ");
            }
            block.append(args[i]);
            proof {
                lemma_join_next(params, ", "@, i as int);
            }
            i += 1;
        }
        assert(params.take(i as int) =~= params);
        block.append(")\n");
        block.append(body);
        block.append("\nend\n");
        self.lua_script.append(block.as_str());
        self
    }

    /// Appends `code` to the script as it is, followed by one newline.
    pub fn add_lua_code(&mut self, code: &str) -> (r: &mut Self)
        ensures
            r@ == (AfeBuilderView {
                lua_script: old(self)@.lua_script + code@ + seq!['\n'],
                ..old(self)@
            }),
            *final(self) == *final(r),
    {
        self.lua_script.append(code);
        self.lua_script.append("\n");
        proof {
            reveal_strlit("\n");
            assert("\n"@ =~= seq!['\n']);
        }
        self
    }

    /// Takes a snapshot: a container of the current format version with the
    /// builder's four texts and the tag `using`. The builder is left as it
    /// is, and the container shares nothing with it.
    pub fn build(&self, using: String) -> (file: AfeFile)
        ensures
            file@ == self@.snapshot(using@),
    {
        AfeFile {
            version: FORMAT_VERSION,
            app_name: self.app_name.clone(),
            app_version: self.app_version.clone(),
            lua_script: self.lua_script.clone(),
            permissions: self.permissions.clone(),
            using,
        }
    }

    /// Checks the builder's permission string against the grammar, as
    /// `validate_permissions` does. Neither `build` nor `to_bytes` makes
    /// this check.
    pub fn validate(&self) -> (r: Result<(), AfeError>)
        ensures
            is_verdict(self@.permissions, r),
    {
        validate_permissions(self.permissions.as_str())
    }

    /// Takes a snapshot under the tag `using` and encodes it: the bytes that
    /// persisting the builder writes, all of them and nothing else. Fails
    /// only where the encoding would be longer than `isize::MAX` bytes.
    pub fn to_bytes(&self, using: String) -> (r: Result<Vec<u8>, AfeError>)
        ensures
            match r {
                Ok(bytes) => bytes@ == spec_encode(self@.snapshot(using@)),
                Err(e) => e == AfeError::Encoding && spec_encode(self@.snapshot(using@)).len()
                    > isize::MAX,
            },
    {
        self.build(using).encode()
    }
}

} // verus!
