use vstd::prelude::*;

verus! {

/// Typed metadata of a single stored file resource.
pub struct FileMetadata {
    pub file_type_id: Option<String>,
    pub field_id: Option<String>,
    pub difficulty: Option<i32>,
    pub date: Option<String>,
    pub solved_prooved: Option<bool>,
    pub solution_id: Option<String>,
    pub bibliography: Option<String>,
    pub file_content: Option<String>,
    pub preamble_id: Option<String>,
    pub build_command: Option<String>,
    pub file_description: Option<String>,
    pub chapters: Option<Vec<String>>,
    pub sections: Option<Vec<String>>,
    pub exercise_types: Option<Vec<String>>,
    pub required_packages: Option<Vec<String>>,
    pub custom_tags: Option<Vec<String>>,
    pub bib_entries: Option<Vec<String>>,
}

/// Typed metadata of a composite document resource.
pub struct DocumentMetadata {
    pub title: Option<String>,
    pub document_type_id: Option<String>,
    pub basic_folder: Option<String>,
    pub sub_folder: Option<String>,
    pub subsub_folder: Option<String>,
    pub date: Option<String>,
    pub content: Option<String>,
    pub preamble_id: Option<String>,
    pub build_command: Option<String>,
    pub needs_update: Option<bool>,
    pub bibliography: Option<String>,
    pub description: Option<String>,
    pub solution_document_id: Option<String>,
    pub included_files: Option<Vec<IncludedFile>>,
    pub custom_tags: Option<Vec<String>>,
    pub bib_entries: Option<Vec<String>>,
}

/// One file pulled into a document, with its position.
pub struct IncludedFile {
    pub file_id: String,
    pub order_index: i32,
    pub files_database_source: Option<String>,
    pub database_type: Option<i32>,
}

/// Typed metadata of a table snippet.
pub struct TableMetadata {
    pub table_type_id: Option<String>,
    pub date: Option<String>,
    pub content: Option<String>,
    pub caption: Option<String>,
    pub required_packages: Option<Vec<String>>,
    pub custom_tags: Option<Vec<String>>,
}

/// Typed metadata of a figure snippet.
pub struct FigureMetadata {
    pub plot_type_id: Option<String>,
    pub environment: Option<String>,
    pub date: Option<String>,
    pub content: Option<String>,
    pub caption: Option<String>,
    pub preamble_id: Option<String>,
    pub build_command: Option<String>,
    pub description: Option<String>,
    pub required_packages: Option<Vec<String>>,
    pub custom_tags: Option<Vec<String>>,
}

/// Typed metadata of a custom command definition.
pub struct CommandMetadata {
    pub name: Option<String>,
    pub file_type_id: Option<String>,
    pub content: Option<String>,
    pub description: Option<String>,
    pub built_in: Option<bool>,
    pub macro_command_type_id: Option<String>,
    pub required_packages: Option<Vec<String>>,
}

/// Typed metadata of a package resource.
pub struct PackageMetadata {
    pub name: Option<String>,
    pub topic_id: Option<String>,
    pub date: Option<String>,
    pub content: Option<String>,
    pub description: Option<String>,
    pub dependencies: Option<Vec<String>>,
    pub topics: Option<Vec<String>>,
}

/// Typed metadata of a preamble resource.
pub struct PreambleMetadata {
    pub name: Option<String>,
    pub file_type_id: Option<String>,
    pub content: Option<String>,
    pub description: Option<String>,
    pub built_in: Option<bool>,
    pub required_packages: Option<Vec<String>>,
    pub command_types: Option<Vec<String>>,
}

/// Typed metadata of a document-class resource.
pub struct ClassMetadata {
    pub name: Option<String>,
    pub file_type_id: Option<String>,
    pub date: Option<String>,
    pub content: Option<String>,
    pub description: Option<String>,
    pub custom_tags: Option<Vec<String>>,
}

/// Metadata of any resource kind, tagged by kind.
pub enum TypedMetadata {
    File(FileMetadata),
    Document(DocumentMetadata),
    Table(TableMetadata),
    Figure(FigureMetadata),
    Command(CommandMetadata),
    Package(PackageMetadata),
    Preamble(PreambleMetadata),
    Class(ClassMetadata),
}

/// A stored resource row joined with its typed metadata, if any.
pub struct ResourceWithTypedMetadata {
    pub id: String,
    pub path: String,
    pub kind: String,
    pub collection: String,
    pub title: Option<String>,
    pub content_hash: Option<String>,
    pub created_at: String,
    pub updated_at: String,
    pub typed_metadata: Option<TypedMetadata>,
}

impl FileMetadata {
    /// Every field starts unset.
    pub open spec fn is_unset(self) -> bool {
        &&& self.file_type_id is None
        &&& self.field_id is None
        &&& self.difficulty is None
        &&& self.date is None
        &&& self.solved_prooved is None
        &&& self.solution_id is None
        &&& self.bibliography is None
        &&& self.file_content is None
        &&& self.preamble_id is None
        &&& self.build_command is None
        &&& self.file_description is None
        &&& self.chapters is None
        &&& self.sections is None
        &&& self.exercise_types is None
        &&& self.required_packages is None
        &&& self.custom_tags is None
        &&& self.bib_entries is None
    }

    /// A fresh file-metadata record with no field set.
    pub fn new() -> (r: Self)
        ensures
            r.is_unset(),
    {
        Self {
            file_type_id: None,
            field_id: None,
            difficulty: None,
            date: None,
            solved_prooved: None,
            solution_id: None,
            bibliography: None,
            file_content: None,
            preamble_id: None,
            build_command: None,
            file_description: None,
            chapters: None,
            sections: None,
            exercise_types: None,
            required_packages: None,
            custom_tags: None,
            bib_entries: None,
        }
    }
}

impl DocumentMetadata {
    /// Every field starts unset.
    pub open spec fn is_unset(self) -> bool {
        &&& self.title is None
        &&& self.document_type_id is None
        &&& self.basic_folder is None
        &&& self.sub_folder is None
        &&& self.subsub_folder is None
        &&& self.date is None
        &&& self.content is None
        &&& self.preamble_id is None
        &&& self.build_command is None
        &&& self.needs_update is None
        &&& self.bibliography is None
        &&& self.description is None
        &&& self.solution_document_id is None
        &&& self.included_files is None
        &&& self.custom_tags is None
        &&& self.bib_entries is None
    }

    /// A fresh document-metadata record with no field set.
    pub fn new() -> (r: Self)
        ensures
            r.is_unset(),
    {
        Self {
            title: None,
            document_type_id: None,
            basic_folder: None,
            sub_folder: None,
            subsub_folder: None,
            date: None,
            content: None,
            preamble_id: None,
            build_command: None,
            needs_update: None,
            bibliography: None,
            description: None,
            solution_document_id: None,
            included_files: None,
            custom_tags: None,
            bib_entries: None,
        }
    }
}

impl Default for FileMetadata {
    fn default() -> (r: Self)
        ensures
            r.is_unset(),
    {
        Self::new()
    }
}

impl Default for DocumentMetadata {
    fn default() -> (r: Self)
        ensures
            r.is_unset(),
    {
        Self::new()
    }
}

} // verus!
