//! The declaration-like text of each entity, as the generated pages show it.

use crate::document::model::{
    Argument, ArgumentView, Enum, EnumView, Function, FunctionView, Property, PropertyArray,
    PropertyArrayView, PropertyView, StructClass, StructClassMode, StructClassView, Visibility,
};
use crate::text::joined;
use vstd::prelude::*;
use vstd::string::StringExecFns;

verus! {

/// `text` where `present` holds, nothing where it does not.
pub open spec fn text_if(present: bool, text: Seq<char>) -> Seq<char> {
    if present {
        text
    } else {
        Seq::empty()
    }
}

/// The text followed by `after`, or nothing where there is no text.
pub open spec fn text_then(text: Option<Seq<char>>, after: Seq<char>) -> Seq<char> {
    match text {
        Some(content) => content + after,
        None => Seq::empty(),
    }
}

impl Visibility {
    /// The keyword of the visibility.
    pub open spec fn keyword(self) -> Seq<char> {
        match self {
            Visibility::Public => "public"@,
            Visibility::Protected => "protected"@,
            Visibility::Private => "private"@,
        }
    }

    /// The keyword of the visibility.
    pub fn signature(self) -> (r: String)
        ensures
            r@ == self.keyword(),
    {
        match self {
            Visibility::Public => "public".to_owned(),
            Visibility::Protected => "protected".to_owned(),
            Visibility::Private => "private".to_owned(),
        }
    }
}

impl StructClassMode {
    /// The keyword of the mode.
    pub open spec fn keyword(self) -> Seq<char> {
        match self {
            StructClassMode::Struct => "struct"@,
            StructClassMode::Class => "class"@,
        }
    }

    /// The keyword of the mode.
    pub fn signature(self) -> (r: String)
        ensures
            r@ == self.keyword(),
    {
        match self {
            StructClassMode::Struct => "struct".to_owned(),
            StructClassMode::Class => "class".to_owned(),
        }
    }
}

impl EnumView {
    /// The variants, each on a line of its own, indented by four spaces.
    pub open spec fn variant_lines(self) -> Seq<Seq<char>> {
        self.variants.map_values(|name: Seq<char>| "    "@ + name)
    }

    /// The declaration of the enum: its name, and its variants between
    /// braces, one on a line.
    pub open spec fn signature(self) -> Seq<char> {
        "enum class "@ + self.name + " : uint8 {\n"@ + joined(self.variant_lines(), ",\n"@)
            + "\n};"@
    }
}

impl Enum {
    /// The declaration of the enum with its variants.
    pub fn signature(&self) -> (r: String)
        ensures
            r@ == self@.signature(),
    {
        let mut result = String::new();
        result.append("enum class ");
        result.append(self.name.as_str());
        result.append(" : uint8 {\n");
        let ghost head = result@;
        let ghost lines = self@.variant_lines();
        let mut i: usize = 0;
        assert(lines.take(0) =~= Seq::empty());
        assert(head + Seq::empty() =~= head);
        while i < self.variants.len()
            invariant
                i <= self.variants.len(),
                lines == self@.variant_lines(),
                lines.len() == self.variants.len(),
                result@ == head + joined(lines.take(i as int), ",\n"@),
            decreases self.variants.len() - i,
        {
            if i > 0 {
                result.append(",\n");
            }
            result.append("    ");
            result.append(self.variants[i].as_str());
            i += 1;
            proof {
                let now = lines.take(i as int);
                assert(now.drop_last() =~= lines.take(i - 1));
                assert(now.last() == "    "@ + self.variants@[i - 1]@);
                assert(result@ =~= head + joined(now, ",\n"@));
            }
        }
        assert(lines.take(i as int) =~= lines);
        result.append("\n};");
        assert(result@ =~= self@.signature());
        result
    }
}

/// One base type of a struct or class, on a line of its own; the first one
/// follows a colon, each later one a comma.
pub open spec fn inherit_line(first: bool, entry: (Visibility, Seq<char>)) -> Seq<char> {
    "\n"@ + "    "@ + (if first {
        ": "@
    } else {
        ", "@
    }) + entry.0.keyword() + " "@ + entry.1
}

/// The lines of the base types.
pub open spec fn inherit_lines(inherits: Seq<(Visibility, Seq<char>)>) -> Seq<char>
    decreases inherits.len(),
{
    if inherits.len() == 0 {
        Seq::empty()
    } else {
        inherit_lines(inherits.drop_last()) + inherit_line(inherits.len() == 1, inherits.last())
    }
}

impl StructClassView {
    /// The declaration of the struct or class: its template declaration on a
    /// line of its own, its keyword, its export macro, its name, and its base
    /// types, one on a line.
    pub open spec fn signature(self) -> Seq<char> {
        text_then(self.template, "\n"@) + self.mode.keyword() + " "@ + text_then(self.api, " "@)
            + self.name + inherit_lines(self.inherits) + ";"@
    }
}

impl StructClass {
    /// The declaration of the struct or class with its base types.
    pub fn signature(&self) -> (r: String)
        ensures
            r@ == self@.signature(),
    {
        let mut result = String::new();
        if let Some(template) = &self.template {
            result.append(template.as_str());
            result.append("\n");
        }
        assert(result@ =~= text_then(self@.template, "\n"@));
        result.append(self.mode.signature().as_str());
        result.append(" ");
        let ghost before_api = result@;
        if let Some(api) = &self.api {
            result.append(api.as_str());
            result.append(" ");
        }
        assert(result@ =~= before_api + text_then(self@.api, " "@));
        result.append(self.name.as_str());
        let ghost head = result@;
        let ghost inherits = self@.inherits;
        let mut i: usize = 0;
        assert(inherits.take(0) =~= Seq::empty());
        assert(head + Seq::empty() =~= head);
        while i < self.inherits.len()
            invariant
                i <= self.inherits.len(),
                inherits == self@.inherits,
                inherits.len() == self.inherits.len(),
                result@ == head + inherit_lines(inherits.take(i as int)),
            decreases self.inherits.len() - i,
        {
            result.append("\n");
            result.append("    ");
            if i == 0 {
                result.append(": ");
            } else {
                result.append(", ");
            }
            result.append(self.inherits[i].0.signature().as_str());
            result.append(" ");
            result.append(self.inherits[i].1.as_str());
            i += 1;
            proof {
                let now = inherits.take(i as int);
                assert(now.drop_last() =~= inherits.take(i - 1));
                assert(now.last() == (self.inherits@[i - 1].0, self.inherits@[i - 1].1@));
                assert(result@ =~= head + inherit_lines(now));
            }
        }
        assert(inherits.take(i as int) =~= inherits);
        result.append(";");
        assert(result@ =~= self@.signature());
        result
    }
}

impl PropertyArrayView {
    /// The brackets that follow the name of the property.
    pub open spec fn suffix(self) -> Seq<char> {
        match self {
            PropertyArrayView::Scalar => Seq::empty(),
            PropertyArrayView::Unsized => "[]"@,
            PropertyArrayView::Sized(size) => "["@ + size + "]"@,
        }
    }
}

impl PropertyView {
    /// The declaration of the property: its visibility as a label on a line
    /// of its own, then `static`, its type, its name and its array marker.
    pub open spec fn signature(self) -> Seq<char> {
        self.visibility.keyword() + ":\n"@ + text_if(self.is_static, "static "@) + self.value_type
            + " "@ + self.name + self.array.suffix() + ";"@
    }
}

impl Property {
    /// The declaration of the property under its visibility label.
    pub fn signature(&self) -> (r: String)
        ensures
            r@ == self@.signature(),
    {
        let mut result = self.visibility.signature();
        result.append(":\n");
        let ghost before_static = result@;
        if self.is_static {
            result.append("static ");
        }
        assert(result@ =~= before_static + text_if(self.is_static, "static "@));
        result.append(self.value_type.as_str());
        result.append(" ");
        result.append(self.name.as_str());
        let ghost before_array = result@;
        match &self.array {
            PropertyArray::Scalar => {},
            PropertyArray::Unsized => {
                result.append("[]");
            },
            PropertyArray::Sized(size) => {
                result.append("[");
                result.append(size.as_str());
                result.append("]");
            },
        }
        assert(result@ =~= before_array + self@.array.suffix());
        result.append(";");
        result
    }
}

impl ArgumentView {
    /// The declaration of the argument: its type, its name and its default
    /// value.
    pub open spec fn signature(self) -> Seq<char> {
        self.value_type + (match self.name {
            Some(name) => " "@ + name,
            None => Seq::empty(),
        }) + (match self.default_value {
            Some(value) => " = "@ + value,
            None => Seq::empty(),
        })
    }
}

impl Argument {
    /// The declaration of the argument.
    pub fn signature(&self) -> (r: String)
        ensures
            r@ == self@.signature(),
    {
        let mut result = self.value_type.clone();
        if let Some(name) = &self.name {
            result.append(" ");
            result.append(name.as_str());
        }
        if let Some(default_value) = &self.default_value {
            result.append(" = ");
            result.append(default_value.as_str());
        }
        assert(result@ =~= self@.signature());
        result
    }
}

/// One argument on a line of its own, indented by four spaces; a comma
/// follows each but the last, a line break the last.
pub open spec fn argument_line(argument: ArgumentView, last: bool) -> Seq<char> {
    "\n    "@ + argument.signature() + (if last {
        "\n"@
    } else {
        ","@
    })
}

/// The lines of the first `count` of the arguments.
pub open spec fn argument_lines(arguments: Seq<ArgumentView>, count: nat) -> Seq<char>
    decreases count,
{
    if count == 0 || count > arguments.len() {
        Seq::empty()
    } else {
        argument_lines(arguments, (count - 1) as nat) + argument_line(
            arguments[count - 1],
            count == arguments.len(),
        )
    }
}

impl FunctionView {
    /// The declaration of the function: its visibility as a label and its
    /// template declaration, each on a line of its own; then `static`,
    /// `virtual`, its return type and its name; its arguments between round
    /// brackets, one on a line; then `const` and `override`.
    pub open spec fn signature(self) -> Seq<char> {
        self.visibility.keyword() + ":\n"@ + text_then(self.template, "\n"@) + text_if(
            self.is_static,
            "static "@,
        ) + text_if(self.is_virtual, "virtual "@) + text_then(self.return_type, " "@) + self.name
            + "("@ + argument_lines(self.arguments, self.arguments.len()) + ")"@ + text_if(
            self.is_const_this,
            " const"@,
        ) + text_if(self.is_override, " override"@) + ";"@
    }
}

impl Function {
    /// The declaration of the function under its visibility label.
    pub fn signature(&self) -> (r: String)
        ensures
            r@ == self@.signature(),
    {
        let mut result = self.visibility.signature();
        result.append(":\n");
        let ghost s0 = result@;
        if let Some(template) = &self.template {
            result.append(template.as_str());
            result.append("\n");
        }
        assert(result@ =~= s0 + text_then(self@.template, "\n"@));
        let ghost s1 = result@;
        if self.is_static {
            result.append("static ");
        }
        assert(result@ =~= s1 + text_if(self.is_static, "static "@));
        let ghost s2 = result@;
        if self.is_virtual {
            result.append("virtual ");
        }
        assert(result@ =~= s2 + text_if(self.is_virtual, "virtual "@));
        let ghost s3 = result@;
        if let Some(return_type) = &self.return_type {
            result.append(return_type.as_str());
            result.append(" ");
        }
        assert(result@ =~= s3 + text_then(self@.return_type, " "@));
        result.append(self.name.as_str());
        result.append("(");
        let ghost head = result@;
        let ghost arguments = self@.arguments;
        let mut i: usize = 0;
        assert(head + Seq::empty() =~= head);
        while i < self.arguments.len()
            invariant
                i <= self.arguments.len(),
                arguments == self@.arguments,
                arguments.len() == self.arguments.len(),
                result@ == head + argument_lines(arguments, i as nat),
            decreases self.arguments.len() - i,
        {
            result.append("\n    ");
            result.append(self.arguments[i].signature().as_str());
            if i < self.arguments.len() - 1 {
                result.append(",");
            } else {
                result.append("\n");
            }
            i += 1;
            proof {
                assert(arguments[i - 1] == self.arguments@[i - 1]@);
                assert(result@ =~= head + argument_lines(arguments, i as nat));
            }
        }
        result.append(")");
        let ghost s4 = result@;
        if self.is_const_this {
            result.append(" const");
        }
        assert(result@ =~= s4 + text_if(self.is_const_this, " const"@));
        let ghost s5 = result@;
        if self.is_override {
            result.append(" override");
        }
        assert(result@ =~= s5 + text_if(self.is_override, " override"@));
        result.append(";");
        result
    }
}

} // verus!
