use vstd::prelude::*;
use vstd::string::*;

verus! {

/// The formats of the files that can stand behind a table.
#[derive(Debug, PartialEq, Eq)]
pub enum DataSourceFormat {
    CSV,
    JSON,
    /// One JSON record per line, in files with the given suffix.
    NdJson { file_extension: String },
    TSV,
    XLSX,
}

/// Mathematical value of a [`DataSourceFormat`].
pub enum DataSourceFormatView {
    CSV,
    JSON,
    NdJson { file_extension: Seq<char> },
    TSV,
    XLSX,
}

impl View for DataSourceFormat {
    type V = DataSourceFormatView;

    open spec fn view(&self) -> DataSourceFormatView {
        match *self {
            DataSourceFormat::CSV => DataSourceFormatView::CSV,
            DataSourceFormat::JSON => DataSourceFormatView::JSON,
            DataSourceFormat::NdJson { file_extension } => DataSourceFormatView::NdJson {
                file_extension: file_extension@,
            },
            DataSourceFormat::TSV => DataSourceFormatView::TSV,
            DataSourceFormat::XLSX => DataSourceFormatView::XLSX,
        }
    }
}

impl Clone for DataSourceFormat {
    fn clone(&self) -> (copy: Self)
        ensures
            copy@ == self@,
    {
        match self {
            DataSourceFormat::CSV => DataSourceFormat::CSV,
            DataSourceFormat::JSON => DataSourceFormat::JSON,
            DataSourceFormat::NdJson { file_extension } => DataSourceFormat::NdJson {
                file_extension: file_extension.clone(),
            },
            DataSourceFormat::TSV => DataSourceFormat::TSV,
            DataSourceFormat::XLSX => DataSourceFormat::XLSX,
        }
    }
}

} // verus!
