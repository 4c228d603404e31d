//! What can go wrong with the stored history.

use crate::domain::ImageError;
use crate::text;
use crate::text::decimal_text;
use vstd::prelude::*;

verus! {

#[derive(Debug, Clone, Copy, PartialEq, Eq, Structural)]
pub enum RepositoryError {
    /// Nothing is left of the text once it is normalized.
    EmptyContent,
    /// The normalized text takes more than a million bytes.
    ContentTooLarge,
    /// No place for image files was given.
    BlobStoreUnavailable,
    /// The image itself is not acceptable.
    Image(ImageError),
    /// The image file would take more than so many megabytes.
    ImageFileTooLarge { limit_mb: u64 },
    /// All image files together would take more than so many megabytes.
    StorageFull { limit_mb: u64 },
    /// The image could not be written in its file format.
    EncodingFailed,
    /// The path of an image file leaves the store.
    UnsafePath,
    /// An image file could not be written.
    BlobUnwritable,
    /// An image file could not be read or decoded.
    BlobUnreadable,
    /// An image file is too large to be shown.
    BlobTooLarge,
    /// A counter has reached its largest value.
    CounterOverflow,
    /// A row would break a rule of its table.
    ConstraintViolation,
    /// There is no such row.
    ClipNotFound,
    /// The clip holds an image, not text.
    NotText,
    /// The clip holds an image that has no file.
    MissingBlob,
    /// A colour is not of the form `#RRGGBB`.
    InvalidColor,
    /// A category name does not have 1 to 60 characters.
    InvalidCategoryName,
    /// There is a category of that name already.
    DuplicateCategory,
    /// Clips cannot be kept for so many days.
    InvalidRetention { days: u32 },
    /// The sizes of the image files do not add up to a number that can be told.
    SizeOverflow,
    /// The text index failed.
    SearchFailed,
    /// The database could not be asked.
    DatabaseFailed,
}

impl RepositoryError {
    pub open spec fn text(self) -> Seq<char> {
        match self {
            RepositoryError::EmptyContent => "пустой Clipboard не сохраняется"@,
            RepositoryError::ContentTooLarge => "текст превышает лимит 1 МБ"@,
            RepositoryError::BlobStoreUnavailable => "blob-хранилище недоступно"@,
            RepositoryError::Image(problem) => problem.text(),
            RepositoryError::ImageFileTooLarge { limit_mb } => "изображение превышает лимит "@
                + text::decimal(limit_mb as nat) + " МБ"@,
            RepositoryError::StorageFull { limit_mb } =>
                "хранилище изображений достигло лимита "@ + text::decimal(limit_mb as nat)
                + " МБ"@,
            RepositoryError::EncodingFailed => "не удалось закодировать изображение"@,
            RepositoryError::UnsafePath => "небезопасный относительный blob-путь"@,
            RepositoryError::BlobUnwritable => "не удалось сохранить blob"@,
            RepositoryError::BlobUnreadable => "повреждённый image blob"@,
            RepositoryError::BlobTooLarge => "blob превышает лимит просмотра"@,
            RepositoryError::CounterOverflow => "счётчик копирований переполнен"@,
            RepositoryError::ConstraintViolation => "нарушено ограничение таблицы"@,
            RepositoryError::ClipNotFound => "карточка не найдена"@,
            RepositoryError::NotText => "карточка содержит изображение, а не текст"@,
            RepositoryError::MissingBlob => "у изображения отсутствует blob-файл"@,
            RepositoryError::InvalidColor => "цвет должен быть в формате #RRGGBB"@,
            RepositoryError::InvalidCategoryName =>
                "название категории должно содержать 1–60 символов"@,
            RepositoryError::DuplicateCategory => "категория с таким названием уже есть"@,
            RepositoryError::InvalidRetention { days } => "Недопустимый срок хранения: "@
                + text::decimal(days as nat),
            RepositoryError::SizeOverflow => "размер хранилища переполнен"@,
            RepositoryError::SearchFailed => "поиск не удался"@,
            RepositoryError::DatabaseFailed => "база данных недоступна"@,
        }
    }

    pub fn message(&self) -> (message: String)
        ensures
            message@ == self.text(),
    {
        match self {
            RepositoryError::EmptyContent => "пустой Clipboard не сохраняется".to_owned(),
            RepositoryError::ContentTooLarge => "текст превышает лимит 1 МБ".to_owned(),
            RepositoryError::BlobStoreUnavailable => "blob-хранилище недоступно".to_owned(),
            RepositoryError::Image(problem) => problem.message().to_owned(),
            RepositoryError::ImageFileTooLarge { limit_mb } => {
                let mut message = "изображение превышает лимит ".to_owned();
                message.push_str(decimal_text(*limit_mb).as_str());
                message.push_str(" МБ");
                message
            },
            RepositoryError::StorageFull { limit_mb } => {
                let mut message = "хранилище изображений достигло лимита ".to_owned();
                message.push_str(decimal_text(*limit_mb).as_str());
                message.push_str(" МБ");
                message
            },
            RepositoryError::EncodingFailed => "не удалось закодировать изображение".to_owned(),
            RepositoryError::UnsafePath => "небезопасный относительный blob-путь".to_owned(),
            RepositoryError::BlobUnwritable => "не удалось сохранить blob".to_owned(),
            RepositoryError::BlobUnreadable => "повреждённый image blob".to_owned(),
            RepositoryError::BlobTooLarge => "blob превышает лимит просмотра".to_owned(),
            RepositoryError::CounterOverflow => "счётчик копирований переполнен".to_owned(),
            RepositoryError::ConstraintViolation => "нарушено ограничение таблицы".to_owned(),
            RepositoryError::ClipNotFound => "карточка не найдена".to_owned(),
            RepositoryError::NotText => "карточка содержит изображение, а не текст".to_owned(),
            RepositoryError::MissingBlob => "у изображения отсутствует blob-файл".to_owned(),
            RepositoryError::InvalidColor => "цвет должен быть в формате #RRGGBB".to_owned(),
            RepositoryError::InvalidCategoryName =>
                "название категории должно содержать 1–60 символов".to_owned(),
            RepositoryError::DuplicateCategory =>
                "категория с таким названием уже есть".to_owned(),
            RepositoryError::InvalidRetention { days } => {
                let mut message = "Недопустимый срок хранения: ".to_owned();
                message.push_str(decimal_text(*days as u64).as_str());
                message
            },
            RepositoryError::SizeOverflow => "размер хранилища переполнен".to_owned(),
            RepositoryError::SearchFailed => "поиск не удался".to_owned(),
            RepositoryError::DatabaseFailed => "база данных недоступна".to_owned(),
        }
    }
}

} // verus!
