use spv_writer::ir::Header;
use spv_writer::spv::model::WriterFlags;
use spv_writer::spv::writer::Writer;

#[test]
fn test_writer_generate_id() {
    let mut writer = create_writer();

    assert_eq!(writer.id_count(), 0);
    writer.generate_id();
    assert_eq!(writer.id_count(), 1);
}

#[test]
fn test_write_physical_layout() {
    let mut writer = create_writer();
    assert_eq!(writer.physical_layout().bound, 0);
    writer.write_physical_layout();
    assert_eq!(writer.physical_layout().bound, 1);
}

fn create_writer() -> Writer {
    let header = Header {
        generator: 0,
        version: (1, 0, 0),
    };
    Writer::new(&header, WriterFlags::NONE, Default::default())
}
