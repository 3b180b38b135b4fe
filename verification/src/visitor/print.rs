//! A visitor that describes the chunks of a `resources.arsc` file, line by line.

use super::{ChunkVisitor, Origin};
use crate::chunks::{
    PackageWrapper, ResourceWrapper, StringTableWrapper, TableTypeWrapper, TypeSpecWrapper,
    XmlNamespaceEndWrapper, XmlNamespaceStartWrapper, XmlTagEndWrapper, XmlTagStartWrapper,
    XmlTextWrapper,
};
use crate::errors::Error;
use crate::model::{Package, StringTable, TableType, TypeSpec};
use crate::text::{decimal, push_decimal, push_str};
use vstd::prelude::*;

verus! {

/// The name of an origin.
pub open spec fn origin_name(origin: Origin) -> Seq<char> {
    match origin {
        Origin::Global => "Global"@,
        Origin::Spec => "Spec"@,
        Origin::Entries => "Entries"@,
    }
}

/// A label and a number read from a chunk: the number in decimal, or the message of the
/// error that reading it gave.
pub open spec fn field_line(label: Seq<char>, value: Result<nat, Error>) -> Seq<char> {
    match value {
        Ok(v) => label + decimal(v),
        Err(e) => label + e.spec_message(),
    }
}

/// The lines that describe a string table.
pub open spec fn string_table_lines(strings: u32, origin: Origin) -> Seq<Seq<char>> {
    seq![
        "String Table!"@,
        "\tLength ("@ + origin_name(origin) + "): "@ + decimal(strings as nat) + " "@,
    ]
}

/// The lines that describe a package.
pub open spec fn package_lines(id: Result<u32, Error>, name: Result<Seq<char>, Error>) -> Seq<
    Seq<char>,
> {
    seq![
        "Package!"@,
        field_line(
            "\tId: "@,
            match id {
                Ok(v) => Ok(v as nat),
                Err(e) => Err(e),
            },
        ),
        match name {
            Ok(n) => "\tName: "@ + n,
            Err(e) => "\tName: "@ + e.spec_message(),
        },
    ]
}

/// The lines that describe a chunk with a title and an id.
pub open spec fn id_lines(title: Seq<char>, id: Result<nat, Error>) -> Seq<Seq<char>> {
    seq![title, field_line("\tId: "@, id)]
}

/// Describes the string tables, packages, table types and type specs it is fed, in
/// order, one line at a time; where a field cannot be read, the message of the error
/// stands in its place.
#[derive(Debug)]
pub struct PrintVisitor {
    lines: Vec<String>,
}

impl PrintVisitor {
    /// The lines written so far.
    pub closed spec fn spec_lines(&self) -> Seq<Seq<char>> {
        self.lines@.map_values(|s: String| s@)
    }

    pub fn new() -> (r: Self)
        ensures
            r.spec_lines() == Seq::<Seq<char>>::empty(),
    {
        let r = PrintVisitor { lines: Vec::new() };
        assert(r.spec_lines() =~= Seq::<Seq<char>>::empty());
        r
    }

    pub fn lines(&self) -> (r: &Vec<String>)
        ensures
            r@.map_values(|s: String| s@) == self.spec_lines(),
    {
        &self.lines
    }

    fn push_line(&mut self, line: String)
        ensures
            final(self).spec_lines() == old(self).spec_lines().push(line@),
    {
        self.lines.push(line);
        assert(self.lines@.map_values(|s: String| s@) =~= old(self).spec_lines().push(line@));
    }

    /// Pushes a label followed by a number read from a chunk, or by the error's message.
    fn push_field(&mut self, label: &str, value: Result<u64, Error>)
        ensures
            final(self).spec_lines() == old(self).spec_lines().push(
                field_line(
                    label@,
                    match value {
                        Ok(v) => Ok(v as nat),
                        Err(e) => Err(e),
                    },
                ),
            ),
    {
        let mut line = String::new();
        push_str(&mut line, label);
        match value {
            Ok(v) => push_decimal(&mut line, v),
            Err(e) => push_str(&mut line, e.message().as_str()),
        }
        self.push_line(line);
    }

    /// Pushes a title.
    fn push_title(&mut self, title: &str)
        ensures
            final(self).spec_lines() == old(self).spec_lines().push(title@),
    {
        let mut line = String::new();
        push_str(&mut line, title);
        assert(line@ =~= title@);
        self.push_line(line);
    }
}

impl Default for PrintVisitor {
    fn default() -> (r: Self)
        ensures
            r.spec_lines() == Seq::<Seq<char>>::empty(),
    {
        PrintVisitor::new()
    }
}

impl<'a> ChunkVisitor<'a> for PrintVisitor {
    fn visit_string_table(&mut self, string_table: StringTableWrapper<'a>, origin: Origin)
        ensures
            final(self).spec_lines() == old(self).spec_lines() + string_table_lines(
                string_table.spec_strings_len(),
                origin,
            ),
    {
        self.push_title("String Table!");
        let mut line = String::new();
        push_str(&mut line, "\tLength (");
        match origin {
            Origin::Global => push_str(&mut line, "Global"),
            Origin::Spec => push_str(&mut line, "Spec"),
            Origin::Entries => push_str(&mut line, "Entries"),
        }
        push_str(&mut line, "): ");
        push_decimal(&mut line, string_table.strings_len() as u64);
        push_str(&mut line, " ");
        self.push_line(line);
        proof {
            reveal_strlit("String Table!");
            reveal_strlit("\tLength (");
            reveal_strlit("Global");
            reveal_strlit("Spec");
            reveal_strlit("Entries");
            reveal_strlit("): ");
            reveal_strlit(" ");
        }
        assert(self.spec_lines() =~= old(self).spec_lines() + string_table_lines(
            string_table.spec_strings_len(),
            origin,
        ));
    }

    fn visit_package(&mut self, package: PackageWrapper<'a>)
        ensures
            final(self).spec_lines() == old(self).spec_lines() + package_lines(
                package.spec_id(),
                package.spec_name(),
            ),
    {
        self.push_title("Package!");
        let id = match package.id() {
            Ok(v) => Ok(v as u64),
            Err(e) => Err(e),
        };
        self.push_field("\tId: ", id);
        let mut line = String::new();
        push_str(&mut line, "\tName: ");
        match package.name() {
            Ok(n) => push_str(&mut line, n.as_str()),
            Err(e) => push_str(&mut line, e.message().as_str()),
        }
        self.push_line(line);
        proof {
            reveal_strlit("Package!");
            reveal_strlit("\tId: ");
            reveal_strlit("\tName: ");
        }
        assert(self.spec_lines() =~= old(self).spec_lines() + package_lines(
            package.spec_id(),
            package.spec_name(),
        ));
    }

    fn visit_table_type(&mut self, table_type: TableTypeWrapper<'a>)
        ensures
            final(self).spec_lines() == old(self).spec_lines() + id_lines(
                "Table type!"@,
                match table_type.spec_id() {
                    Ok(v) => Ok(v as nat),
                    Err(e) => Err(e),
                },
            ),
    {
        self.push_title("Table type!");
        let id = match table_type.get_id() {
            Ok(v) => Ok(v as u64),
            Err(e) => Err(e),
        };
        self.push_field("\tId: ", id);
        proof {
            reveal_strlit("\tId: ");
        }
        assert(self.spec_lines() =~= old(self).spec_lines() + id_lines(
            "Table type!"@,
            match table_type.spec_id() {
                Ok(v) => Ok(v as nat),
                Err(e) => Err(e),
            },
        ));
    }

    fn visit_type_spec(&mut self, type_spec: TypeSpecWrapper<'a>)
        ensures
            final(self).spec_lines() == old(self).spec_lines() + id_lines(
                "Type spec!"@,
                match type_spec.spec_id() {
                    Ok(v) => Ok(v as nat),
                    Err(e) => Err(e),
                },
            ),
    {
        self.push_title("Type spec!");
        let id = match type_spec.id() {
            Ok(v) => Ok(v as u64),
            Err(e) => Err(e),
        };
        self.push_field("\tId: ", id);
        proof {
            reveal_strlit("\tId: ");
        }
        assert(self.spec_lines() =~= old(self).spec_lines() + id_lines(
            "Type spec!"@,
            match type_spec.spec_id() {
                Ok(v) => Ok(v as nat),
                Err(e) => Err(e),
            },
        ));
    }

    /// Not a chunk of a `resources.arsc` file: nothing is printed.
    fn visit_xml_namespace_start(&mut self, chunk: XmlNamespaceStartWrapper<'a>)
        ensures
            final(self).spec_lines() == old(self).spec_lines(),
    {
    }

    /// Not a chunk of a `resources.arsc` file: nothing is printed.
    fn visit_xml_namespace_end(&mut self, chunk: XmlNamespaceEndWrapper<'a>)
        ensures
            final(self).spec_lines() == old(self).spec_lines(),
    {
    }

    /// Not a chunk of a `resources.arsc` file: nothing is printed.
    fn visit_xml_tag_start(&mut self, chunk: XmlTagStartWrapper<'a>)
        ensures
            final(self).spec_lines() == old(self).spec_lines(),
    {
    }

    /// Not a chunk of a `resources.arsc` file: nothing is printed.
    fn visit_xml_tag_end(&mut self, chunk: XmlTagEndWrapper<'a>)
        ensures
            final(self).spec_lines() == old(self).spec_lines(),
    {
    }

    /// Not a chunk of a `resources.arsc` file: nothing is printed.
    fn visit_xml_text(&mut self, chunk: XmlTextWrapper<'a>)
        ensures
            final(self).spec_lines() == old(self).spec_lines(),
    {
    }

    /// Not a chunk of a `resources.arsc` file: nothing is printed.
    fn visit_resource(&mut self, chunk: ResourceWrapper<'a>)
        ensures
            final(self).spec_lines() == old(self).spec_lines(),
    {
    }
}

} // verus!
