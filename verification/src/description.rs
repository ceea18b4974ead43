//! The documents that describe the device and its services.

use vstd::prelude::*;
use vstd::string::StringExecFns;

verus! {

/// The device description up to the friendly name.
pub const ROOT_XML_HEAD: &'static str = "<?xml version=\"1.0\"?>\n\
<root xmlns=\"urn:schemas-upnp-org:device-1-0\">\n\
<specVersion><major>1</major><minor>0</minor></specVersion>\n\
<device>\n\
<deviceType>urn:schemas-upnp-org:device:MediaServer:1</deviceType>\n\
<friendlyName>";

/// The device description between the friendly name and the device
/// identifier.
pub const ROOT_XML_NAMED: &'static str = "</friendlyName>\n\
<manufacturer>rustmedia</manufacturer>\n\
<modelName>rustmedia</modelName>\n\
<modelNumber>1.0</modelNumber>\n\
<UDN>uuid:";

/// The device description from the device identifier on.
pub const ROOT_XML_TAIL: &'static str = "</UDN>\n\
<serviceList>\n\
<service>\n\
<serviceType>urn:schemas-upnp-org:service:ContentDirectory:1</serviceType>\n\
<serviceId>urn:upnp-org:serviceId:ContentDirectory</serviceId>\n\
<SCPDURL>/content/desc.xml</SCPDURL>\n\
<controlURL>/content/control</controlURL>\n\
<eventSubURL>/content/events</eventSubURL>\n\
</service>\n\
<service>\n\
<serviceType>urn:schemas-upnp-org:service:ConnectionManager:1</serviceType>\n\
<serviceId>urn:upnp-org:serviceId:ConnectionManager</serviceId>\n\
<SCPDURL>/connection/desc.xml</SCPDURL>\n\
<controlURL>/connection/control</controlURL>\n\
<eventSubURL>/connection/events</eventSubURL>\n\
</service>\n\
</serviceList>\n\
</device>\n\
</root>\n";

/// The description of the connection manager service.
pub const CONNECTION_XML: &'static str = "<?xml version=\"1.0\"?>\n\
<scpd xmlns=\"urn:schemas-upnp-org:service-1-0\">\n\
<specVersion><major>1</major><minor>0</minor></specVersion>\n\
<actionList>\n\
<action>\n\
<name>GetProtocolInfo</name>\n\
<argumentList>\n\
<argument><name>Source</name><direction>out</direction><relatedStateVariable>SourceProtocolInfo</relatedStateVariable></argument>\n\
<argument><name>Sink</name><direction>out</direction><relatedStateVariable>SinkProtocolInfo</relatedStateVariable></argument>\n\
</argumentList>\n\
</action>\n\
<action>\n\
<name>GetCurrentConnectionIDs</name>\n\
<argumentList>\n\
<argument><name>ConnectionIDs</name><direction>out</direction><relatedStateVariable>CurrentConnectionIDs</relatedStateVariable></argument>\n\
</argumentList>\n\
</action>\n\
</actionList>\n\
<serviceStateTable>\n\
<stateVariable sendEvents=\"yes\"><name>SourceProtocolInfo</name><dataType>string</dataType></stateVariable>\n\
<stateVariable sendEvents=\"yes\"><name>SinkProtocolInfo</name><dataType>string</dataType></stateVariable>\n\
<stateVariable sendEvents=\"yes\"><name>CurrentConnectionIDs</name><dataType>string</dataType></stateVariable>\n\
</serviceStateTable>\n\
</scpd>\n";

/// The description of the content directory service.
pub const CONTENT_XML: &'static str = "<?xml version=\"1.0\"?>\n\
<scpd xmlns=\"urn:schemas-upnp-org:service-1-0\">\n\
<specVersion><major>1</major><minor>0</minor></specVersion>\n\
<actionList>\n\
<action>\n\
<name>Browse</name>\n\
<argumentList>\n\
<argument><name>ObjectID</name><direction>in</direction><relatedStateVariable>A_ARG_TYPE_ObjectID</relatedStateVariable></argument>\n\
<argument><name>BrowseFlag</name><direction>in</direction><relatedStateVariable>A_ARG_TYPE_BrowseFlag</relatedStateVariable></argument>\n\
<argument><name>Filter</name><direction>in</direction><relatedStateVariable>A_ARG_TYPE_Filter</relatedStateVariable></argument>\n\
<argument><name>StartingIndex</name><direction>in</direction><relatedStateVariable>A_ARG_TYPE_Index</relatedStateVariable></argument>\n\
<argument><name>RequestedCount</name><direction>in</direction><relatedStateVariable>A_ARG_TYPE_Count</relatedStateVariable></argument>\n\
<argument><name>SortCriteria</name><direction>in</direction><relatedStateVariable>A_ARG_TYPE_SortCriteria</relatedStateVariable></argument>\n\
<argument><name>Result</name><direction>out</direction><relatedStateVariable>A_ARG_TYPE_Result</relatedStateVariable></argument>\n\
<argument><name>NumberReturned</name><direction>out</direction><relatedStateVariable>A_ARG_TYPE_Count</relatedStateVariable></argument>\n\
<argument><name>TotalMatches</name><direction>out</direction><relatedStateVariable>A_ARG_TYPE_Count</relatedStateVariable></argument>\n\
<argument><name>UpdateID</name><direction>out</direction><relatedStateVariable>A_ARG_TYPE_UpdateID</relatedStateVariable></argument>\n\
</argumentList>\n\
</action>\n\
</actionList>\n\
<serviceStateTable>\n\
<stateVariable sendEvents=\"no\"><name>A_ARG_TYPE_ObjectID</name><dataType>string</dataType></stateVariable>\n\
<stateVariable sendEvents=\"no\"><name>A_ARG_TYPE_Result</name><dataType>string</dataType></stateVariable>\n\
<stateVariable sendEvents=\"no\"><name>A_ARG_TYPE_BrowseFlag</name><dataType>string</dataType><allowedValueList><allowedValue>BrowseMetadata</allowedValue><allowedValue>BrowseDirectChildren</allowedValue></allowedValueList></stateVariable>\n\
<stateVariable sendEvents=\"no\"><name>A_ARG_TYPE_Filter</name><dataType>string</dataType></stateVariable>\n\
<stateVariable sendEvents=\"no\"><name>A_ARG_TYPE_SortCriteria</name><dataType>string</dataType></stateVariable>\n\
<stateVariable sendEvents=\"no\"><name>A_ARG_TYPE_Index</name><dataType>ui4</dataType></stateVariable>\n\
<stateVariable sendEvents=\"no\"><name>A_ARG_TYPE_Count</name><dataType>ui4</dataType></stateVariable>\n\
<stateVariable sendEvents=\"no\"><name>A_ARG_TYPE_UpdateID</name><dataType>ui4</dataType></stateVariable>\n\
<stateVariable sendEvents=\"yes\"><name>SystemUpdateID</name><dataType>ui4</dataType></stateVariable>\n\
</serviceStateTable>\n\
</scpd>\n";

/// The description of a device with the given friendly name and identifier.
/// Both are written into the document as they are.
pub open spec fn root_xml(name: Seq<char>, uuid: Seq<char>) -> Seq<char> {
    ROOT_XML_HEAD@ + name + ROOT_XML_NAMED@ + uuid + ROOT_XML_TAIL@
}

/// Writes the description of a device. See [`root_xml`].
pub fn render_root_xml(name: &str, uuid: &str) -> (xml: String)
    ensures
        xml@ == root_xml(name@, uuid@),
{
    let mut xml = ROOT_XML_HEAD.to_owned();
    xml.append(name);
    xml.append(ROOT_XML_NAMED);
    xml.append(uuid);
    xml.append(ROOT_XML_TAIL);
    xml
}

} // verus!
